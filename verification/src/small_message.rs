//! Euphoria messages as the chat shows them.

use vstd::prelude::*;
use vstd::string::StrSliceExecFns;

use crate::store::Msg;

verus! {

/// A message of a euphoria room as the client keeps it.
#[derive(Debug)]
pub struct SmallMessage {
    pub id: u64,
    pub parent: Option<u64>,
    /// When it was sent, in seconds since the Unix epoch.
    pub time: i64,
    pub user_id: String,
    pub nick: String,
    pub content: String,
    pub seen: bool,
}

impl Msg for SmallMessage {
    open spec fn spec_id(&self) -> u64 {
        self.id
    }

    open spec fn spec_parent(&self) -> Option<u64> {
        self.parent
    }

    open spec fn spec_seen(&self) -> bool {
        self.seen
    }

    fn id(&self) -> (r: u64) {
        self.id
    }

    fn parent(&self) -> (r: Option<u64>) {
        self.parent
    }

    fn seen(&self) -> (r: bool) {
        self.seen
    }

    open spec fn spec_last_possible_id() -> u64 {
        u64::MAX
    }

    fn last_possible_id() -> (r: u64) {
        u64::MAX
    }
}

/// `content` starts with the `/me` prefix of an action message.
pub open spec fn is_me(content: Seq<char>) -> bool {
    content.len() >= 3 && content[0] == '/' && content[1] == 'm' && content[2] == 'e'
}

/// The rest of an action message (`/me ...`), or `None` for other messages.
pub fn as_me(content: &str) -> (r: Option<&str>)
    ensures
        match r {
            Some(rest) => is_me(content@) && rest@ == content@.skip(3),
            None => !is_me(content@),
        },
{
    let n = content.unicode_len();
    if n >= 3 && content.get_char(0) == '/' && content.get_char(1) == 'm' && content.get_char(2) == 'e' {
        Some(content.substring_char(3, n))
    } else {
        None
    }
}

} // verus!
