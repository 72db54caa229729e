//! The log: messages logged while the client runs, kept in memory and shown
//! as a chat of their own, with one tree per message.

use std::convert::Infallible;

use vstd::prelude::*;
use vstd::string::StrSliceExecFns;
use vstd::string::StringExecFns;

use crate::store::{
    children_or_empty, depth, is_child_of, is_tree_node, msgs_by_id, parents_precede, same_tree, Msg,
    MsgStore, Path, Tree,
};

verus! {

/// How important a log message is, from most to least important.
#[derive(Debug, Clone, Copy, PartialEq, Eq, Structural)]
pub enum Level {
    Error,
    Warn,
    Info,
    Debug,
    Trace,
}

impl Level {
    /// The level's rank: the most important level has the lowest.
    pub open spec fn rank(self) -> int {
        match self {
            Level::Error => 1,
            Level::Warn => 2,
            Level::Info => 3,
            Level::Debug => 4,
            Level::Trace => 5,
        }
    }

    /// The level's name as the log shows it.
    pub fn name(&self) -> (r: &'static str)
        ensures
            r@ == match *self {
                Level::Error => "ERROR"@,
                Level::Warn => "WARN"@,
                Level::Info => "INFO"@,
                Level::Debug => "DEBUG"@,
                Level::Trace => "TRACE"@,
            },
    {
        match self {
            Level::Error => "ERROR",
            Level::Warn => "WARN",
            Level::Info => "INFO",
            Level::Debug => "DEBUG",
            Level::Trace => "TRACE",
        }
    }
}

/// One logged message; its id is its place in the log.
#[derive(Debug, Clone)]
pub struct LogMsg {
    pub id: u64,
    /// When it was logged, in nanoseconds since the Unix epoch.
    pub time: i128,
    pub level: Level,
    pub content: String,
}

impl LogMsg {
    /// A copy of the message.
    pub fn copy(&self) -> (r: Self)
        ensures
            r == *self,
    {
        LogMsg { id: self.id, time: self.time, level: self.level, content: self.content.clone() }
    }
}

impl Msg for LogMsg {
    open spec fn spec_id(&self) -> u64 {
        self.id
    }

    open spec fn spec_parent(&self) -> Option<u64> {
        None
    }

    open spec fn spec_seen(&self) -> bool {
        true
    }

    fn id(&self) -> (r: u64) {
        self.id
    }

    /// Log messages never reply to anything.
    fn parent(&self) -> (r: Option<u64>) {
        None
    }

    /// Log messages count as seen.
    fn seen(&self) -> (r: bool) {
        true
    }

    open spec fn spec_last_possible_id() -> u64 {
        u64::MAX
    }

    fn last_possible_id() -> (r: u64) {
        u64::MAX
    }
}

/// Whether `prefix` is a prefix of `s`.
pub fn starts_with(s: &str, prefix: &str) -> (r: bool)
    ensures
        r == prefix@.is_prefix_of(s@),
{
    let n = prefix.unicode_len();
    let m = s.unicode_len();
    if n > m {
        return false;
    }
    let head = String::from_str(s.substring_char(0, n));
    let p = String::from_str(prefix);
    head == p
}

/// Whether a message of `level` from `target` goes into the log: all
/// messages down to `Info`, and less important ones from the client itself
/// and from the parts of the chat library that connect to rooms.
pub open spec fn is_enabled(level: Level, target: Seq<char>) -> bool {
    level.rank() <= Level::Info.rank() || "cove"@.is_prefix_of(target)
        || "euphoxide::bot"@.is_prefix_of(target) || "euphoxide::live"@.is_prefix_of(target)
}

/// Whether a message of `level` from `target` goes into the log.
pub fn enabled(level: Level, target: &str) -> (r: bool)
    ensures
        r == is_enabled(level, target@),
{
    match level {
        Level::Error | Level::Warn | Level::Info => {
            return true;
        },
        _ => {},
    }
    starts_with(target, "cove") || starts_with(target, "euphoxide::bot") || starts_with(
        target,
        "euphoxide::live",
    )
}

/// The log's messages, oldest first.
#[derive(Debug)]
pub struct Logger {
    messages: Vec<LogMsg>,
}

/// The text a message from `target` with text `args` is logged as:
/// `<target> args`.
pub open spec fn log_line(target: Seq<char>, args: Seq<char>) -> Seq<char> {
    seq!['<'] + target + seq!['>', ' '] + args
}

/// The texts of the errors among `msgs`, in their order.
pub open spec fn error_texts(msgs: Seq<LogMsg>) -> Seq<Seq<char>>
    decreases msgs.len(),
{
    if msgs.len() == 0 {
        Seq::empty()
    } else {
        let rest = error_texts(msgs.drop_last());
        if msgs.last().level == Level::Error {
            rest.push(msgs.last().content@)
        } else {
            rest
        }
    }
}

impl Logger {
    #[verifier::type_invariant]
    spec fn ids_are_places(&self) -> bool {
        &&& self.messages@.len() < u64::MAX
        &&& forall|i: int| 0 <= i < self.messages@.len() ==> #[trigger] self.messages@[i].id == i
    }

    /// The logged messages, oldest first.
    pub closed spec fn spec_messages(&self) -> Seq<LogMsg> {
        self.messages@
    }

    /// An empty log.
    pub fn new() -> (r: Self)
        ensures
            r.spec_messages() == Seq::<LogMsg>::empty(),
    {
        Logger { messages: Vec::new() }
    }

    /// Number of logged messages.
    pub fn len(&self) -> (r: usize)
        ensures
            r == self.spec_messages().len(),
    {
        self.messages.len()
    }

    /// Logs a message of `level` from `target` with text `args`, logged at
    /// `time`, if such messages are enabled; the message gets the next id.
    /// Returns whether it was logged. A full log takes no more messages.
    pub fn log(&mut self, level: Level, target: &str, args: &str, time: i128) -> (r: bool)
        ensures
            r == (is_enabled(level, target@) && old(self).spec_messages().len() + 1 < u64::MAX),
            r ==> final(self).spec_messages().len() == old(self).spec_messages().len() + 1
                && final(self).spec_messages().drop_last() == old(self).spec_messages()
                && final(self).spec_messages().last().id == old(self).spec_messages().len()
                && final(self).spec_messages().last().time == time
                && final(self).spec_messages().last().level == level
                && final(self).spec_messages().last().content@ == log_line(target@, args@),
            !r ==> final(self).spec_messages() == old(self).spec_messages(),
    {
        proof {
            use_type_invariant(&*self);
        }
        if !enabled(level, target) {
            return false;
        }
        let n = self.messages.len();
        if n as u64 + 1 >= u64::MAX {
            return false;
        }
        let mut content = String::from_str("<");
        content.append(target);
        content.append("> ");
        content.append(args);
        proof {
            reveal_strlit("<");
            reveal_strlit("> ");
        }
        assert(content@ =~= log_line(target@, args@));
        let msg = LogMsg { id: n as u64, time, level, content };
        let mut messages = Vec::new();
        std::mem::swap(&mut messages, &mut self.messages);
        messages.push(msg);
        self.messages = messages;
        true
    }

    /// The texts of the logged errors, oldest first.
    pub fn errors(&self) -> (r: Vec<String>)
        ensures
            r@.len() == error_texts(self.spec_messages()).len(),
            forall|k: int| 0 <= k < r@.len() ==> #[trigger] r@[k]@ == error_texts(self.spec_messages())[k],
    {
        let mut out: Vec<String> = Vec::new();
        let mut i: usize = 0;
        while i < self.messages.len()
            invariant
                i <= self.messages@.len(),
                out@.len() == error_texts(self.messages@.take(i as int)).len(),
                forall|k: int| 0 <= k < out@.len() ==> #[trigger] out@[k]@ == error_texts(self.messages@.take(i as int))[k],
            decreases self.messages@.len() - i,
        {
            let ghost prev = self.messages@.take(i as int);
            assert(self.messages@.take(i + 1).drop_last() =~= prev);
            if self.messages[i].level == Level::Error {
                out.push(self.messages[i].content.clone());
            }
            i += 1;
        }
        assert(self.messages@.take(self.messages@.len() as int) =~= self.messages@);
        out
    }

    /// The messages of the tree with root `root_id`: the message with that
    /// id, if there is one.
    pub open spec fn tree_msgs(&self, root_id: u64) -> Map<u64, LogMsg> {
        if root_id < self.spec_messages().len() {
            map![root_id => self.spec_messages()[root_id as int]]
        } else {
            Map::empty()
        }
    }
}

impl Clone for Logger {
    fn clone(&self) -> (r: Self)
        ensures
            r.spec_messages() == self.spec_messages(),
    {
        proof {
            use_type_invariant(self);
        }
        let mut messages: Vec<LogMsg> = Vec::new();
        let mut i: usize = 0;
        while i < self.messages.len()
            invariant
                i <= self.messages@.len(),
                messages@ == self.messages@.take(i as int),
            decreases self.messages@.len() - i,
        {
            messages.push(self.messages[i].copy());
            assert(messages@ =~= self.messages@.take(i + 1));
            i += 1;
        }
        assert(messages@ =~= self.messages@);
        Logger { messages }
    }
}

impl MsgStore<LogMsg> for Logger {
    type Error = Infallible;

    /// The log is kept in memory: reading it never fails.
    open spec fn spec_never_fails() -> bool {
        true
    }

    open spec fn spec_path(&self, id: u64) -> Seq<u64> {
        seq![id]
    }

    open spec fn spec_msg(&self, id: u64) -> Option<LogMsg> {
        if id < self.spec_messages().len() {
            Some(self.spec_messages()[id as int])
        } else {
            None
        }
    }

    open spec fn spec_tree(&self, root_id: u64) -> Tree<LogMsg> {
        choose|t: Tree<LogMsg>|
            t.wf() && t.spec_root() == root_id && t.spec_msgs() == self.tree_msgs(root_id)
    }

    open spec fn spec_first_root_id(&self) -> Option<u64> {
        if self.spec_messages().len() > 0 {
            Some(0)
        } else {
            None
        }
    }

    open spec fn spec_last_root_id(&self) -> Option<u64> {
        if self.spec_messages().len() > 0 {
            Some((self.spec_messages().len() - 1) as u64)
        } else {
            None
        }
    }

    open spec fn spec_prev_root_id(&self, root_id: u64) -> Option<u64> {
        if root_id > 0 {
            Some((root_id - 1) as u64)
        } else {
            None
        }
    }

    open spec fn spec_next_root_id(&self, root_id: u64) -> Option<u64> {
        if root_id + 1 < self.spec_messages().len() {
            Some((root_id + 1) as u64)
        } else {
            None
        }
    }

    open spec fn spec_oldest_msg_id(&self) -> Option<u64> {
        self.spec_first_root_id()
    }

    open spec fn spec_newest_msg_id(&self) -> Option<u64> {
        self.spec_last_root_id()
    }

    open spec fn spec_older_msg_id(&self, id: u64) -> Option<u64> {
        self.spec_prev_root_id(id)
    }

    open spec fn spec_newer_msg_id(&self, id: u64) -> Option<u64> {
        self.spec_next_root_id(id)
    }

    open spec fn spec_oldest_unseen_msg_id(&self) -> Option<u64> {
        None
    }

    open spec fn spec_newest_unseen_msg_id(&self) -> Option<u64> {
        None
    }

    open spec fn spec_older_unseen_msg_id(&self, id: u64) -> Option<u64> {
        None
    }

    open spec fn spec_newer_unseen_msg_id(&self, id: u64) -> Option<u64> {
        None
    }

    open spec fn spec_unseen_msgs_count(&self) -> nat {
        0
    }

    fn path(&self, id: &u64) -> (r: Result<Path<u64>, Infallible>) {
        Ok(Path::new(vec![*id]))
    }

    fn msg(&self, id: &u64) -> (r: Result<Option<LogMsg>, Infallible>) {
        if *id < self.messages.len() as u64 {
            Ok(Some(self.messages[*id as usize].copy()))
        } else {
            Ok(None)
        }
    }

    fn tree(&self, root_id: &u64) -> (r: Result<Tree<LogMsg>, Infallible>) {
        proof {
            use_type_invariant(self);
        }
        let mut msgs: Vec<LogMsg> = Vec::new();
        if *root_id < self.messages.len() as u64 {
            msgs.push(self.messages[*root_id as usize].copy());
        }
        let ghost all = msgs@;
        let t = Tree::new(*root_id, msgs);
        proof {
            let expected = self.tree_msgs(*root_id);
            if *root_id < self.messages@.len() {
                let m = self.messages@[*root_id as int];
                assert(all =~= seq![m]);
                assert(all.drop_first() =~= Seq::<LogMsg>::empty());
                assert(msgs_by_id(all.drop_first()) =~= Map::<u64, LogMsg>::empty());
                assert(msgs_by_id(all) =~= expected);
            } else {
                assert(all =~= Seq::<LogMsg>::empty());
                assert(msgs_by_id(all) =~= expected);
            }
            let chosen = self.spec_tree(*root_id);
            assert(t.wf() && t.spec_root() == *root_id && t.spec_msgs() == expected);
            Tree::lemma_children_determined(t, chosen);
            // Log messages reply to nothing: every tree is its root alone.
            let ch = t.spec_children();
            assert forall|k: u64| #[trigger] t.spec_subtree_size(k) <= usize::MAX by {
                if ch.contains_key(k) {
                    if ch[k].len() > 0 {
                        assert(ch[k].contains(ch[k][0]));
                        assert(is_child_of(t.spec_msgs(), ch[k][0], k));
                    }
                    assert(ch[k] =~= Seq::<u64>::empty());
                }
                assert(children_or_empty(ch, k) =~= Seq::<u64>::empty());
            }
            assert forall|k: u64| #[trigger] is_tree_node(t.spec_msgs(), k) implies depth(t, k) < usize::MAX by {
                if !t.spec_msgs().contains_key(k) {
                    let c = choose|c: u64| #[trigger] is_child_of(t.spec_msgs(), c, k);
                    assert(t.spec_msgs()[c].spec_parent() is None);
                }
            }
        }
        Ok(t)
    }

    fn first_root_id(&self) -> (r: Result<Option<u64>, Infallible>) {
        if self.messages.len() > 0 {
            Ok(Some(0))
        } else {
            Ok(None)
        }
    }

    fn last_root_id(&self) -> (r: Result<Option<u64>, Infallible>) {
        proof {
            use_type_invariant(self);
        }
        let n = self.messages.len();
        if n > 0 {
            Ok(Some((n - 1) as u64))
        } else {
            Ok(None)
        }
    }

    fn prev_root_id(&self, root_id: &u64) -> (r: Result<Option<u64>, Infallible>) {
        Ok(root_id.checked_sub(1))
    }

    fn next_root_id(&self, root_id: &u64) -> (r: Result<Option<u64>, Infallible>) {
        proof {
            use_type_invariant(self);
        }
        let len = self.messages.len() as u64;
        match root_id.checked_add(1) {
            Some(t) => if t < len {
                Ok(Some(t))
            } else {
                Ok(None)
            },
            None => Ok(None),
        }
    }

    fn oldest_msg_id(&self) -> (r: Result<Option<u64>, Infallible>) {
        self.first_root_id()
    }

    fn newest_msg_id(&self) -> (r: Result<Option<u64>, Infallible>) {
        self.last_root_id()
    }

    fn older_msg_id(&self, id: &u64) -> (r: Result<Option<u64>, Infallible>) {
        self.prev_root_id(id)
    }

    fn newer_msg_id(&self, id: &u64) -> (r: Result<Option<u64>, Infallible>) {
        self.next_root_id(id)
    }

    fn oldest_unseen_msg_id(&self) -> (r: Result<Option<u64>, Infallible>) {
        Ok(None)
    }

    fn newest_unseen_msg_id(&self) -> (r: Result<Option<u64>, Infallible>) {
        Ok(None)
    }

    fn older_unseen_msg_id(&self, id: &u64) -> (r: Result<Option<u64>, Infallible>) {
        Ok(None)
    }

    fn newer_unseen_msg_id(&self, id: &u64) -> (r: Result<Option<u64>, Infallible>) {
        Ok(None)
    }

    fn unseen_msgs_count(&self) -> (r: Result<usize, Infallible>) {
        Ok(0)
    }

    /// Log messages are always seen: marking them changes nothing.
    open spec fn spec_with_seen(&self, id: u64, seen: bool) -> Self {
        *self
    }

    open spec fn spec_with_older_seen(&self, id: u64, seen: bool) -> Self {
        *self
    }

    fn set_seen(&mut self, id: &u64, seen: bool) -> (r: Result<(), Infallible>) {
        Ok(())
    }

    fn set_older_seen(&mut self, id: &u64, seen: bool) -> (r: Result<(), Infallible>) {
        Ok(())
    }
}


/// Reading the log gives back what was logged: after a message is logged,
/// looking it up by the id it got yields it, and every earlier message is
/// still found under its id.
pub proof fn lemma_logged_message_is_found(before: Logger, after: Logger)
    requires
        before.spec_messages().len() + 1 < u64::MAX,
        after.spec_messages().len() == before.spec_messages().len() + 1,
        after.spec_messages().drop_last() == before.spec_messages(),
    ensures
        after.spec_msg(before.spec_messages().len() as u64) == Some(after.spec_messages().last()),
        forall|id: u64|
            id < before.spec_messages().len() ==> #[trigger] after.spec_msg(id) == before.spec_msg(id),
{
    assert forall|id: u64| id < before.spec_messages().len() implies #[trigger] after.spec_msg(id)
        == before.spec_msg(id) by {
        assert(after.spec_messages().drop_last()[id as int] == after.spec_messages()[id as int]);
    }
}

} // verus!
