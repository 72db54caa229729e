//! The human-readable text format of room exports: each message on its own
//! lines, replies indented below what they reply to.

use vstd::prelude::*;
use vstd::string::StringExecFns;

use crate::small_message::SmallMessage;
use crate::store::{children_or_empty, parents_precede, Tree};
use crate::text::{str_width, string_from_chars, text_width};

verus! {

/// `s` cut at every `\n`: one more part than there are newlines.
pub open spec fn split_at_newlines(s: Seq<char>) -> Seq<Seq<char>>
    decreases s.len(),
{
    if s.len() == 0 {
        seq![Seq::empty()]
    } else {
        let rest = split_at_newlines(s.drop_last());
        if s.last() == '\n' {
            rest.push(Seq::empty())
        } else {
            rest.update(rest.len() - 1, rest.last().push(s.last()))
        }
    }
}

/// `line` without one `\r` at its end.
pub open spec fn strip_cr(line: Seq<char>) -> Seq<char> {
    if line.len() > 0 && line.last() == '\r' {
        line.drop_last()
    } else {
        line
    }
}

/// The lines of `s` as `str::lines` gives them: split at each `\n`, a `\r`
/// right before a `\n` removed, and no empty line after a final `\n`.
pub open spec fn text_lines(s: Seq<char>) -> Seq<Seq<char>> {
    let parts = split_at_newlines(s);
    let ended = parts.drop_last().map_values(|l: Seq<char>| strip_cr(l));
    if parts.last().len() == 0 {
        ended
    } else {
        ended.push(parts.last())
    }
}

/// There is always at least one part.
proof fn lemma_split_nonempty(s: Seq<char>)
    ensures
        split_at_newlines(s).len() >= 1,
    decreases s.len(),
{
    if s.len() > 0 {
        lemma_split_nonempty(s.drop_last());
    }
}

/// The characters of `chars` as a `String`, without one `\r` at the end.
fn string_without_cr(chars: &Vec<char>) -> (r: String)
    ensures
        r@ == strip_cr(chars@),
{
    let n = chars.len();
    if n > 0 && chars[n - 1] == '\r' {
        string_from_chars(chars.as_slice(), 0, n - 1)
    } else {
        string_from_chars(chars.as_slice(), 0, n)
    }
}

/// The lines of `s`, as `str::lines` gives them.
pub fn lines_of(s: &str) -> (r: Vec<String>)
    ensures
        r@.len() == text_lines(s@).len(),
        forall|i: int| 0 <= i < r@.len() ==> #[trigger] r@[i]@ == text_lines(s@)[i],
{
    let mut done: Vec<String> = Vec::new();
    let mut cur: Vec<char> = Vec::new();
    proof {
        assert(s@.take(0) =~= Seq::<char>::empty());
    }
    for c in it: s.chars()
        invariant
            it.seq() == s@,
            split_at_newlines(s@.take(it.index())).len() == done@.len() + 1,
            forall|j: int|
                0 <= j < done@.len() ==> #[trigger] done@[j]@ == strip_cr(
                    split_at_newlines(s@.take(it.index()))[j],
                ),
            cur@ == split_at_newlines(s@.take(it.index())).last(),
    {
        let ghost k = it.index();
        proof {
            let t = s@.take(k + 1);
            assert(t.drop_last() =~= s@.take(k));
            assert(t.last() == c);
            lemma_split_nonempty(s@.take(k));
        }
        if c == '\n' {
            done.push(string_without_cr(&cur));
            cur = Vec::new();
        } else {
            cur.push(c);
        }
    }
    proof {
        assert(s@.take(s@.len() as int) =~= s@);
        lemma_split_nonempty(s@);
    }
    let ghost parts = split_at_newlines(s@);
    let ghost ended = parts.drop_last().map_values(|l: Seq<char>| strip_cr(l));
    assert(done@.len() == ended.len());
    if cur.len() > 0 {
        let n = cur.len();
        done.push(string_from_chars(cur.as_slice(), 0, n));
        assert(cur@.subrange(0, n as int) =~= cur@);
    }
    done
}

/// Blank space in place of a timestamp in text exports.
pub open spec fn time_empty() -> Seq<char> {
    "                   "@
}

/// The line a text export writes for a message that is missing from the
/// vault, below messages indented by `indent_string`.
pub fn placeholder_line(indent_string: &str) -> (r: String)
    ensures
        r@ == time_empty() + " "@ + indent_string@ + "[...]"@,
{
    let mut line = String::from_str("                   ");
    line.append(" ");
    line.append(indent_string);
    line.append("[...]");
    line
}

/// `| ` repeated `n` times: the indentation of replies in text exports.
pub open spec fn indent_chars(n: nat) -> Seq<char>
    decreases n,
{
    if n == 0 {
        Seq::empty()
    } else {
        indent_chars((n - 1) as nat) + seq!['|', ' ']
    }
}

/// `| ` repeated `indent` times.
pub fn indent_string(indent: u64) -> (r: String)
    ensures
        r@ == indent_chars(indent as nat),
{
    proof {
        reveal_strlit("");
        reveal_strlit("| ");
    }
    let mut s = String::from_str("");
    let mut i: u64 = 0;
    while i < indent
        invariant
            i <= indent,
            s@ == indent_chars(i as nat),
            "| "@ == seq!['|', ' '],
        decreases indent - i,
    {
        s.append("| ");
        i += 1;
    }
    s
}


/// What `jiff::Timestamp::strftime` writes for the instant `second` seconds
/// after the Unix epoch with the format `format` (a timestamp is formatted
/// in UTC).
pub uninterp spec fn strftime_text(second: i64, format: Seq<char>) -> Seq<char>;

/// The seconds since the Unix epoch that a `jiff::Timestamp` can hold.
pub open spec fn timestamp_in_range(second: i64) -> bool {
    -377705023201 <= second <= 253402207200
}

/// Calls `jiff::Timestamp::from_second`, which fails exactly outside the
/// range of `jiff::Timestamp` (as its documentation guarantees), and formats
/// the instant with `strftime` and `format`. Formatting runs in lenient mode
/// and does not fail; its text depends on the instant and the format alone,
/// so it is named.
#[verifier::external_body]
fn format_time(second: i64, format: &str) -> (r: Option<String>)
    ensures
        r is Some <==> timestamp_in_range(second),
        r matches Some(t) ==> t@ == strftime_text(second, format@),
{
    match jiff::Timestamp::from_second(second) {
        Ok(ts) => Some(ts.strftime(format).to_string()),
        Err(_) => None,
    }
}

/// The format of the time in front of each message.
pub open spec fn time_format() -> Seq<char> {
    "%Y-%m-%d %H:%M:%S"@
}

/// `n` spaces.
pub open spec fn spaces(n: nat) -> Seq<char> {
    Seq::new(n, |_i: int| ' ')
}

/// Line `i` of a message sent at `time` by `nick` whose content has `line`
/// as its line `i`: the first line shows the time and the nick, the others
/// continue below the nick.
pub open spec fn msg_line(i: int, time: Seq<char>, indent: Seq<char>, nick: Seq<char>, line: Seq<char>) -> Seq<char> {
    if i == 0 {
        time + " "@ + indent + "["@ + nick + "] "@ + line
    } else {
        time_empty() + " "@ + indent + "| "@ + spaces(text_width(nick)) + " "@ + line
    }
}

/// The lines of a message in a text export, one per line of its content.
pub open spec fn spec_msg_lines(time: Seq<char>, indent: Seq<char>, nick: Seq<char>, content: Seq<char>) -> Seq<
    Seq<char>,
> {
    text_lines(content).map(|i: int, line: Seq<char>| msg_line(i, time, indent, nick, line))
}

/// The characters of each string.
pub open spec fn views(v: Seq<String>) -> Seq<Seq<char>> {
    v.map_values(|s: String| s@)
}

/// `n` spaces.
fn spaces_string(n: usize) -> (r: String)
    ensures
        r@ == spaces(n as nat),
{
    proof {
        reveal_strlit("");
        reveal_strlit(" ");
    }
    let mut s = String::from_str("");
    let mut i: usize = 0;
    while i < n
        invariant
            i <= n,
            s@ == spaces(i as nat),
            " "@ == seq![' '],
        decreases n - i,
    {
        s.append(" ");
        i += 1;
        assert(s@ =~= spaces(i as nat));
    }
    s
}

/// The lines a text export writes for `msg`, below messages indented by
/// `indent_string`.
pub fn msg_lines(indent_string: &str, msg: &SmallMessage) -> (r: Vec<String>)
    requires
        timestamp_in_range(msg.time),
    ensures
        views(r@) == spec_msg_lines(
            strftime_text(msg.time, time_format()),
            indent_string@,
            msg.nick@,
            msg.content@,
        ),
{
    let ghost spec_lines = spec_msg_lines(
        strftime_text(msg.time, time_format()),
        indent_string@,
        msg.nick@,
        msg.content@,
    );
    let time = match format_time(msg.time, "%Y-%m-%d %H:%M:%S") {
        Some(t) => t,
        None => {
            return Vec::new();
        },
    };
    let nick_empty = spaces_string(str_width(msg.nick.as_str()));
    let lines = lines_of(msg.content.as_str());
    let mut out: Vec<String> = Vec::new();
    let mut i: usize = 0;
    while i < lines.len()
        invariant
            i <= lines@.len(),
            lines@.len() == text_lines(msg.content@).len(),
            forall|j: int| 0 <= j < lines@.len() ==> #[trigger] lines@[j]@ == text_lines(msg.content@)[j],
            time@ == strftime_text(msg.time, time_format()),
            nick_empty@ == spaces(text_width(msg.nick@)),
            spec_lines == spec_msg_lines(
                strftime_text(msg.time, time_format()),
                indent_string@,
                msg.nick@,
                msg.content@,
            ),
            views(out@) == spec_lines.take(i as int),
        decreases lines@.len() - i,
    {
        let mut line: String;
        if i == 0 {
            line = time.clone();
            line.append(" ");
            line.append(indent_string);
            line.append("[");
            line.append(msg.nick.as_str());
            line.append("] ");
        } else {
            line = String::from_str("                   ");
            line.append(" ");
            line.append(indent_string);
            line.append("| ");
            line.append(nick_empty.as_str());
            line.append(" ");
        }
        line.append(lines[i].as_str());
        assert(line@ == spec_lines[i as int]);
        let ghost prev = out@;
        out.push(line);
        proof {
            assert(views(out@) =~= views(prev).push(line@));
            assert(spec_lines.take(i + 1) =~= spec_lines.take(i as int).push(spec_lines[i as int]));
        }
        i += 1;
    }
    assert(spec_lines.take(i as int) =~= spec_lines);
    out
}


/// The lines written for message `id` of `tree` at indentation `indent`: the
/// message's lines, or a placeholder where the message is missing.
pub open spec fn node_export(tree: Tree<SmallMessage>, id: u64, indent: nat) -> Seq<Seq<char>> {
    if tree.spec_msgs().contains_key(id) {
        let m = tree.spec_msgs()[id];
        spec_msg_lines(strftime_text(m.time, time_format()), indent_chars(indent), m.nick@, m.content@)
    } else {
        seq![time_empty() + " "@ + indent_chars(indent) + "[...]"@]
    }
}

/// The lines written for the messages `s` (replies to `bound`, so each id
/// exceeds it) at indentation `indent`, each followed by its replies one
/// level deeper.
pub open spec fn forest_export(tree: Tree<SmallMessage>, bound: u64, s: Seq<u64>, indent: nat) -> Seq<Seq<char>>
    decreases u64::MAX - bound, s.len(),
{
    if s.len() == 0 {
        seq![]
    } else if s.last() <= bound {
        seq![]
    } else {
        let c = s.last();
        forest_export(tree, bound, s.drop_last(), indent) + node_export(tree, c, indent) + forest_export(
            tree,
            c,
            children_or_empty(tree.spec_children(), c),
            indent + 1,
        )
    }
}

/// The lines written for message `id` of `tree` and, below it, its replies
/// one level deeper.
pub open spec fn tree_export(tree: Tree<SmallMessage>, id: u64, indent: nat) -> Seq<Seq<char>> {
    node_export(tree, id, indent) + forest_export(
        tree,
        id,
        children_or_empty(tree.spec_children(), id),
        indent + 1,
    )
}

/// Every message of the tree can be given a time.
pub open spec fn times_in_range(tree: Tree<SmallMessage>) -> bool {
    forall|k: u64| #[trigger]
        tree.spec_msgs().contains_key(k) ==> timestamp_in_range(tree.spec_msgs()[k].time)
}

/// Appends the lines for message `id` of `tree` and its replies to `out`.
fn write_tree(tree: &Tree<SmallMessage>, id: u64, indent: u64, out: &mut Vec<String>)
    requires
        parents_precede(tree.spec_msgs()),
        times_in_range(*tree),
        indent <= id,
    ensures
        views(final(out)@) == views(old(out)@) + tree_export(*tree, id, indent as nat),
    decreases u64::MAX - id,
{
    proof {
        use_type_invariant(tree);
        tree.lemma_children_follow(id);
    }
    let ghost start = views(out@);
    let indent_str = indent_string(indent);
    match tree.msg(&id) {
        Some(msg) => {
            let mut lines = msg_lines(indent_str.as_str(), msg);
            out.append(&mut lines);
        },
        None => {
            out.push(placeholder_line(indent_str.as_str()));
        },
    }
    proof {
        assert(views(out@) =~= start + node_export(*tree, id, indent as nat));
    }
    let ghost ch = tree.spec_children();
    let ghost all = children_or_empty(ch, id);
    let children: &[u64] = match tree.children(&id) {
        Some(c) => c,
        None => &[],
    };
    assert(children@ =~= all);
    assert(all.take(0) =~= Seq::<u64>::empty());
    let mut i: usize = 0;
    while i < children.len()
        invariant
            children@ == all,
            i <= all.len(),
            forall|k: int| 0 <= k < all.len() ==> id < #[trigger] all[k],
            parents_precede(tree.spec_msgs()),
            times_in_range(*tree),
            indent <= id,
            ch == tree.spec_children(),
            views(out@) == start + node_export(*tree, id, indent as nat) + forest_export(
                *tree,
                id,
                all.take(i as int),
                indent as nat + 1,
            ),
        decreases all.len() - i,
    {
        let child = children[i];
        proof {
            let t = all.take(i + 1);
            assert(t.drop_last() =~= all.take(i as int));
            assert(t.last() == child);
        }
        let ghost before = views(out@);
        write_tree(tree, child, indent + 1, out);
        proof {
            assert(views(out@) =~= start + node_export(*tree, id, indent as nat) + forest_export(
                *tree,
                id,
                all.take(i + 1),
                indent as nat + 1,
            ));
        }
        i += 1;
    }
    assert(all.take(all.len() as int) =~= all);
    assert(views(out@) =~= views(old(out)@) + tree_export(*tree, id, indent as nat));
}

/// The lines of the text export of `tree`: its root and, below each message,
/// its replies, indented one level deeper, in the order of their ids.
pub fn export_tree(tree: &Tree<SmallMessage>) -> (r: Vec<String>)
    requires
        parents_precede(tree.spec_msgs()),
        times_in_range(*tree),
    ensures
        views(r@) == tree_export(*tree, tree.spec_root(), 0),
{
    let mut out: Vec<String> = Vec::new();
    let root = *tree.root();
    write_tree(tree, root, 0, &mut out);
    assert(views(out@) =~= Seq::<Seq<char>>::empty() + tree_export(*tree, root, 0));
    out
}

} // verus!
