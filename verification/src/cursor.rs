//! The cursor of a chat and how it moves through message trees.

use std::collections::HashSet;

use vstd::prelude::*;

use crate::store::{after_in, before_in, children_or_empty, parents_precede, same_tree, Msg, MsgStore, Tree};
use vstd::std_specs::cmp::{PartialEqSpec, PartialEqSpecImpl};

verus! {

broadcast use vstd::std_specs::hash::group_hash_axioms;

/// Where the cursor of a chat is.
#[derive(Debug, Clone, Copy, PartialEq, Eq, Structural)]
pub enum Cursor<Id> {
    /// Below all messages.
    Bottom,
    /// On a message.
    Msg(Id),
    /// Composing a message (below `parent`, or a new thread without parent).
    Editor { coming_from: Option<Id>, parent: Option<Id> },
    /// Waiting for a composed message to be sent.
    Pseudo { coming_from: Option<Id>, parent: Option<Id> },
}

/// The last element of `s`, if any.
pub open spec fn last_of(s: Seq<u64>) -> Option<u64> {
    if s.len() > 0 {
        Some(s.last())
    } else {
        None
    }
}

/// The first element of `s`, if any.
pub open spec fn first_of(s: Seq<u64>) -> Option<u64> {
    if s.len() > 0 {
        Some(s[0])
    } else {
        None
    }
}

/// `tree` is what `store` gives for the tree with its root.
pub open spec fn fetched<M: Msg, S: MsgStore<M>>(store: S, tree: Tree<M>) -> bool {
    &&& same_tree(tree, store.spec_tree(tree.spec_root()))
    &&& parents_precede(tree.spec_msgs())
}

/// The first child of `id` that is shown: none where `id` is folded.
pub open spec fn visible_first_child(children: Map<u64, Seq<u64>>, folded: Set<u64>, id: u64) -> Option<u64> {
    if folded.contains(id) || !children.contains_key(id) {
        None
    } else {
        first_of(children[id])
    }
}

/// The last child of `id` that is shown: none where `id` is folded.
pub open spec fn visible_last_child(children: Map<u64, Seq<u64>>, folded: Set<u64>, id: u64) -> Option<u64> {
    if folded.contains(id) || !children.contains_key(id) {
        None
    } else {
        last_of(children[id])
    }
}

/// The message reached from `id` by going to the last shown child for as
/// long as there is one (children are younger than their parents).
pub open spec fn deepest_last(children: Map<u64, Seq<u64>>, folded: Set<u64>, id: u64) -> u64
    decreases u64::MAX - id,
{
    match visible_last_child(children, folded, id) {
        Some(c) => if c > id {
            deepest_last(children, folded, c)
        } else {
            id
        },
        None => id,
    }
}

/// The root of the tree that holds message `id`.
pub open spec fn root_of<M: Msg, S: MsgStore<M>>(store: S, id: u64) -> u64 {
    store.spec_path(id)[0]
}

/// The sibling just before `id` in the tree with root `root`.
pub open spec fn sibling_before<M: Msg, S: MsgStore<M>>(store: S, root: u64, id: u64) -> Option<u64> {
    match store.spec_tree(root).spec_siblings(id) {
        Some(s) => before_in(s, id),
        None => None,
    }
}

/// The sibling just after `id` in the tree with root `root`.
pub open spec fn sibling_after<M: Msg, S: MsgStore<M>>(store: S, root: u64, id: u64) -> Option<u64> {
    match store.spec_tree(root).spec_siblings(id) {
        Some(s) => after_in(s, id),
        None => None,
    }
}

/// Where moving from `id` (in the tree with root `root`) to the previous
/// sibling leads, as the root of the tree moved into and the message: the
/// sibling just before it, or for a root the root of the previous tree.
pub open spec fn prev_sibling_step<M: Msg, S: MsgStore<M>>(store: S, root: u64, id: u64) -> Option<(u64, u64)> {
    match sibling_before(store, root, id) {
        Some(p) => Some((root, p)),
        None => if store.spec_tree(root).spec_parent_of(id) is None {
            match store.spec_prev_root_id(root) {
                Some(r) => Some((r, r)),
                None => None,
            }
        } else {
            None
        },
    }
}

/// Where moving from `id` to the next sibling leads: the sibling just after
/// it, or for a root the root of the next tree.
pub open spec fn next_sibling_step<M: Msg, S: MsgStore<M>>(store: S, root: u64, id: u64) -> Option<(u64, u64)> {
    match sibling_after(store, root, id) {
        Some(n) => Some((root, n)),
        None => if store.spec_tree(root).spec_parent_of(id) is None {
            match store.spec_next_root_id(root) {
                Some(r) => Some((r, r)),
                None => None,
            }
        } else {
            None
        },
    }
}

/// The message drawn just above `id`: the deepest last shown descendant of
/// the previous sibling, else the parent.
pub open spec fn above_step<M: Msg, S: MsgStore<M>>(store: S, folded: Set<u64>, root: u64, id: u64) -> Option<(u64, u64)> {
    match prev_sibling_step(store, root, id) {
        Some((r, p)) => Some((r, deepest_last(store.spec_tree(r).spec_children(), folded, p))),
        None => match store.spec_tree(root).spec_parent_of(id) {
            Some(p) => Some((root, p)),
            None => None,
        },
    }
}

/// The next sibling of the nearest ancestor of `id` that has one.
pub open spec fn next_of_ancestor<M: Msg, S: MsgStore<M>>(store: S, root: u64, id: u64) -> Option<(u64, u64)>
    decreases id,
{
    match store.spec_tree(root).spec_parent_of(id) {
        Some(p) => if p < id {
            match next_sibling_step(store, root, p) {
                Some(x) => Some(x),
                None => next_of_ancestor(store, root, p),
            }
        } else {
            None
        },
        None => None,
    }
}

/// The message drawn just below `id`: its first shown child, else its next
/// sibling, else the next sibling of its nearest ancestor that has one.
pub open spec fn below_step<M: Msg, S: MsgStore<M>>(store: S, folded: Set<u64>, root: u64, id: u64) -> Option<(u64, u64)> {
    match visible_first_child(store.spec_tree(root).spec_children(), folded, id) {
        Some(c) => Some((root, c)),
        None => match next_sibling_step(store, root, id) {
            Some(x) => Some(x),
            None => next_of_ancestor(store, root, id),
        },
    }
}

/// The reply target when replying normally to message `id`: the message
/// itself if younger siblings follow it, else its parent, or the message
/// itself at the top level.
pub open spec fn normal_reply_parent<M: Msg>(tree: Tree<M>, id: u64) -> u64 {
    let has_next = match tree.spec_siblings(id) {
        Some(s) => after_in(s, id) is Some,
        None => false,
    };
    if has_next {
        id
    } else {
        match tree.spec_parent_of(id) {
            Some(p) => p,
            None => id,
        }
    }
}

/// The reply target when replying the other way: the message itself if no
/// younger siblings follow it, else its parent, or the message itself at
/// the top level.
pub open spec fn alternate_reply_parent<M: Msg>(tree: Tree<M>, id: u64) -> u64 {
    let has_next = match tree.spec_siblings(id) {
        Some(s) => after_in(s, id) is Some,
        None => false,
    };
    if !has_next {
        id
    } else {
        match tree.spec_parent_of(id) {
            Some(p) => p,
            None => id,
        }
    }
}

/// The parent of a reply written normally from cursor `c`: `Some(None)` for
/// a new thread from the bottom, `Some(Some(id))` for a reply to `id`,
/// `None` where no reply can start.
pub open spec fn normal_reply_for<M: Msg, S: MsgStore<M>>(store: S, c: Cursor<u64>) -> Option<Option<u64>> {
    match c {
        Cursor::Bottom => Some(None),
        Cursor::Msg(id) => Some(Some(normal_reply_parent(store.spec_tree(root_of(store, id)), id))),
        _ => None,
    }
}

/// The parent of a reply written the other way from cursor `c`.
pub open spec fn alternate_reply_for<M: Msg, S: MsgStore<M>>(store: S, c: Cursor<u64>) -> Option<Option<u64>> {
    match c {
        Cursor::Bottom => Some(None),
        Cursor::Msg(id) => Some(Some(alternate_reply_parent(store.spec_tree(root_of(store, id)), id))),
        _ => None,
    }
}

/// The cursor after moving to the oldest tree's root.
pub open spec fn moved_to_top<M: Msg, S: MsgStore<M>>(store: S, c: Cursor<u64>) -> Cursor<u64> {
    match store.spec_first_root_id() {
        Some(f) => Cursor::Msg(f),
        None => c,
    }
}

/// The cursor after moving to an older message: from a message to the one
/// `older` gives, from the bottom or a pending message to the one `newest`
/// gives; nowhere if there is none.
pub open spec fn moved_older(c: Cursor<u64>, older: Option<u64>, newest: Option<u64>) -> Cursor<u64> {
    match c {
        Cursor::Msg(_) => match older {
            Some(o) => Cursor::Msg(o),
            None => c,
        },
        Cursor::Bottom | Cursor::Pseudo { .. } => match newest {
            Some(n) => Cursor::Msg(n),
            None => c,
        },
        _ => c,
    }
}

/// The cursor after moving to a newer message: from a message to the one
/// `newer` gives, else to the bottom; from a pending message to the bottom.
pub open spec fn moved_newer(c: Cursor<u64>, newer: Option<u64>) -> Cursor<u64> {
    match c {
        Cursor::Msg(_) => match newer {
            Some(n) => Cursor::Msg(n),
            None => Cursor::Bottom,
        },
        Cursor::Pseudo { .. } => Cursor::Bottom,
        _ => c,
    }
}

/// The cursor after moving to the parent: from the editor or a pending
/// message to the message replied to; from a message to its parent.
pub open spec fn moved_to_parent<M: Msg, S: MsgStore<M>>(store: S, c: Cursor<u64>) -> Cursor<u64> {
    match c {
        Cursor::Editor { parent: Some(p), .. } => Cursor::Msg(p),
        Cursor::Pseudo { parent: Some(p), .. } => Cursor::Msg(p),
        Cursor::Msg(id) => match last_of(store.spec_path(id).drop_last()) {
            Some(p) => Cursor::Msg(p),
            None => c,
        },
        _ => c,
    }
}

/// The cursor after moving to the root of its tree.
pub open spec fn moved_to_root<M: Msg, S: MsgStore<M>>(store: S, c: Cursor<u64>) -> Cursor<u64> {
    match c {
        Cursor::Pseudo { parent: Some(p), .. } => Cursor::Msg(root_of(store, p)),
        Cursor::Msg(id) => Cursor::Msg(root_of(store, id)),
        _ => c,
    }
}

/// The cursor after moving to the previous sibling: from the bottom (or a
/// pending new thread) to the newest tree's root; from a message to the
/// sibling before; from a pending reply to the last reply of its parent.
pub open spec fn moved_to_prev_sibling<M: Msg, S: MsgStore<M>>(store: S, c: Cursor<u64>) -> Cursor<u64> {
    match c {
        Cursor::Bottom | Cursor::Pseudo { parent: None, .. } => match store.spec_last_root_id() {
            Some(l) => Cursor::Msg(l),
            None => c,
        },
        Cursor::Msg(id) => match prev_sibling_step(store, root_of(store, id), id) {
            Some((_, p)) => Cursor::Msg(p),
            None => c,
        },
        Cursor::Editor { .. } => c,
        Cursor::Pseudo { parent: Some(p), .. } => {
            let children = store.spec_tree(root_of(store, p)).spec_children();
            if children.contains_key(p) {
                match last_of(children[p]) {
                    Some(l) => Cursor::Msg(l),
                    None => c,
                }
            } else {
                c
            }
        },
    }
}

/// The cursor after moving to the next sibling: from a message to the
/// sibling after, past the newest root to the bottom; from a pending new
/// thread to the bottom.
pub open spec fn moved_to_next_sibling<M: Msg, S: MsgStore<M>>(store: S, c: Cursor<u64>) -> Cursor<u64> {
    match c {
        Cursor::Msg(id) => {
            let root = root_of(store, id);
            match next_sibling_step(store, root, id) {
                Some((_, n)) => Cursor::Msg(n),
                None => if store.spec_tree(root).spec_parent_of(id) is None {
                    Cursor::Bottom
                } else {
                    c
                },
            }
        },
        Cursor::Pseudo { parent: None, .. } => Cursor::Bottom,
        _ => c,
    }
}

/// The cursor after moving up by one message as drawn.
pub open spec fn moved_up<M: Msg, S: MsgStore<M>>(store: S, folded: Set<u64>, c: Cursor<u64>) -> Cursor<u64> {
    match c {
        Cursor::Bottom | Cursor::Pseudo { parent: None, .. } => match store.spec_last_root_id() {
            Some(l) => Cursor::Msg(deepest_last(store.spec_tree(l).spec_children(), folded, l)),
            None => c,
        },
        Cursor::Msg(id) => match above_step(store, folded, root_of(store, id), id) {
            Some((_, a)) => Cursor::Msg(a),
            None => c,
        },
        Cursor::Editor { .. } => c,
        Cursor::Pseudo { parent: Some(p), .. } => Cursor::Msg(
            deepest_last(store.spec_tree(p).spec_children(), folded, p),
        ),
    }
}

/// The cursor after moving down by one message as drawn; below the last
/// message lies the bottom.
pub open spec fn moved_down<M: Msg, S: MsgStore<M>>(store: S, folded: Set<u64>, c: Cursor<u64>) -> Cursor<u64> {
    match c {
        Cursor::Msg(id) => match below_step(store, folded, root_of(store, id), id) {
            Some((_, b)) => Cursor::Msg(b),
            None => Cursor::Bottom,
        },
        Cursor::Pseudo { parent: None, .. } => Cursor::Bottom,
        Cursor::Pseudo { parent: Some(p), .. } => {
            let last = deepest_last(store.spec_tree(p).spec_children(), folded, p);
            match below_step(store, folded, p, last) {
                Some((_, b)) => Cursor::Msg(b),
                None => Cursor::Bottom,
            }
        },
        _ => c,
    }
}

/// Moving down from a message with no shown replies and no next sibling
/// leads to the next sibling of its parent, where the parent has one:
/// below the last reply of a thread comes the sibling that follows the
/// message it replies to.
pub proof fn lemma_moved_down_to_parents_next_sibling<M: Msg, S: MsgStore<M>>(
    store: S,
    folded: Set<u64>,
    id: u64,
    p: u64,
    n: u64,
)
    requires
        ({
            let t = store.spec_tree(store.spec_path(id)[0]);
            &&& folded.contains(id) || children_or_empty(t.spec_children(), id).len() == 0
            &&& t.spec_next_sibling(id) is None
            &&& t.spec_parent_of(id) == Some(p)
            &&& p < id
            &&& t.spec_next_sibling(p) == Some(n)
        }),
    ensures
        moved_down(store, folded, Cursor::Msg(id)) == Cursor::Msg(n),
{
    let t = store.spec_tree(store.spec_path(id)[0]);
    let ch = t.spec_children();
    if !folded.contains(id) && ch.contains_key(id) {
        assert(ch[id].len() == 0);
    }
}

/// Moving down from a message with no shown replies and no next sibling,
/// whose parent has no next sibling either, leads to the next sibling of
/// its grandparent, where that has one.
pub proof fn lemma_moved_down_to_grandparents_next_sibling<M: Msg, S: MsgStore<M>>(
    store: S,
    folded: Set<u64>,
    id: u64,
    p: u64,
    q: u64,
    n: u64,
)
    requires
        ({
            let t = store.spec_tree(store.spec_path(id)[0]);
            &&& folded.contains(id) || children_or_empty(t.spec_children(), id).len() == 0
            &&& t.spec_next_sibling(id) is None
            &&& t.spec_parent_of(id) == Some(p)
            &&& p < id
            &&& t.spec_next_sibling(p) is None
            &&& t.spec_parent_of(p) == Some(q)
            &&& q < p
            &&& t.spec_next_sibling(q) == Some(n)
        }),
    ensures
        moved_down(store, folded, Cursor::Msg(id)) == Cursor::Msg(n),
{
    let r = store.spec_path(id)[0];
    let t = store.spec_tree(r);
    let ch = t.spec_children();
    if !folded.contains(id) && ch.contains_key(id) {
        assert(ch[id].len() == 0);
    }
    assert(next_sibling_step(store, r, q) == Some((r, n)));
    assert(next_of_ancestor(store, r, q) == next_of_ancestor(store, r, q));
    assert(next_sibling_step(store, r, p) is None);
    assert(next_of_ancestor(store, r, p) == Some((r, n)));
    assert(next_of_ancestor(store, r, id) == Some((r, n)));
}

impl<Id> Cursor<Id> {
    pub fn move_to_bottom(&mut self)
        ensures
            *final(self) == Cursor::<Id>::Bottom,
    {
        *self = Self::Bottom;
    }
}

impl Cursor<u64> {
    /// Moves `id` to its parent, if it has one in the tree.
    fn find_parent<M: Msg>(tree: &Tree<M>, id: &mut u64) -> (r: bool)
        ensures
            r == (tree.spec_parent_of(*old(id)) is Some),
            *final(id) == match tree.spec_parent_of(*old(id)) {
                Some(p) => p,
                None => *old(id),
            },
    {
        if let Some(parent) = tree.parent(id) {
            *id = parent;
            true
        } else {
            false
        }
    }

    /// Moves `id` to the previous sibling, or for a root to the root of the
    /// previous tree (then `tree` becomes that tree).
    fn find_prev_sibling<M: Msg, S: MsgStore<M>>(store: &S, tree: &mut Tree<M>, id: &mut u64) -> (r: Result<bool, S::Error>)
        requires
            fetched(*store, *old(tree)),
        ensures
            S::spec_never_fails() ==> r is Ok,
            fetched(*store, *final(tree)),
            match r {
                Ok(moved) => {
                    let step = prev_sibling_step(*store, old(tree).spec_root(), *old(id));
                    &&& moved == (step is Some)
                    &&& match step {
                        Some((root, p)) => final(tree).spec_root() == root && *final(id) == p,
                        None => *final(tree) == *old(tree) && *final(id) == *old(id),
                    }
                },
                Err(_) => *final(tree) == *old(tree) && *final(id) == *old(id),
            },
    {
        if let Some(prev) = tree.prev_sibling(id) {
            *id = prev;
            return Ok(true);
        }
        if tree.parent(id).is_none() {
            let root = *tree.root();
            match store.prev_root_id(&root) {
                Err(e) => Err(e),
                Ok(None) => Ok(false),
                Ok(Some(prev_root)) => match store.tree(&prev_root) {
                    Err(e) => Err(e),
                    Ok(t) => {
                        *tree = t;
                        *id = prev_root;
                        Ok(true)
                    },
                },
            }
        } else {
            Ok(false)
        }
    }

    /// Moves `id` to the next sibling, or for a root to the root of the next
    /// tree (then `tree` becomes that tree).
    fn find_next_sibling<M: Msg, S: MsgStore<M>>(store: &S, tree: &mut Tree<M>, id: &mut u64) -> (r: Result<bool, S::Error>)
        requires
            fetched(*store, *old(tree)),
        ensures
            S::spec_never_fails() ==> r is Ok,
            fetched(*store, *final(tree)),
            match r {
                Ok(moved) => {
                    let step = next_sibling_step(*store, old(tree).spec_root(), *old(id));
                    &&& moved == (step is Some)
                    &&& match step {
                        Some((root, n)) => final(tree).spec_root() == root && *final(id) == n,
                        None => *final(tree) == *old(tree) && *final(id) == *old(id),
                    }
                },
                Err(_) => *final(tree) == *old(tree) && *final(id) == *old(id),
            },
    {
        if let Some(next) = tree.next_sibling(id) {
            *id = next;
            return Ok(true);
        }
        if tree.parent(id).is_none() {
            let root = *tree.root();
            match store.next_root_id(&root) {
                Err(e) => Err(e),
                Ok(None) => Ok(false),
                Ok(Some(next_root)) => match store.tree(&next_root) {
                    Err(e) => Err(e),
                    Ok(t) => {
                        *tree = t;
                        *id = next_root;
                        Ok(true)
                    },
                },
            }
        } else {
            Ok(false)
        }
    }

    /// Moves `id` to its first child, unless it is folded or has no children.
    fn find_first_child_in_tree<M: Msg>(folded: &HashSet<u64>, tree: &Tree<M>, id: &mut u64) -> (r: bool)
        ensures
            ({
                let found = visible_first_child(tree.spec_children(), folded@, *old(id));
                &&& r == (found is Some)
                &&& *final(id) == match found {
                    Some(c) => c,
                    None => *old(id),
                }
            }),
    {
        if folded.contains(id) {
            return false;
        }
        if let Some(children) = tree.children(id) {
            if children.len() > 0 {
                *id = children[0];
                return true;
            }
        }
        false
    }

    /// Moves `id` to its last child, unless it is folded or has no children.
    fn find_last_child_in_tree<M: Msg>(folded: &HashSet<u64>, tree: &Tree<M>, id: &mut u64) -> (r: bool)
        ensures
            ({
                let found = visible_last_child(tree.spec_children(), folded@, *old(id));
                &&& r == (found is Some)
                &&& *final(id) == match found {
                    Some(c) => c,
                    None => *old(id),
                }
            }),
    {
        if folded.contains(id) {
            return false;
        }
        if let Some(children) = tree.children(id) {
            if children.len() > 0 {
                *id = children[children.len() - 1];
                return true;
            }
        }
        false
    }

    /// Goes to the last shown child of `id` for as long as there is one.
    fn descend_last<M: Msg>(folded: &HashSet<u64>, tree: &Tree<M>, id: u64) -> (r: u64)
        requires
            parents_precede(tree.spec_msgs()),
        ensures
            r == deepest_last(tree.spec_children(), folded@, id),
    {
        proof {
            use_type_invariant(tree);
        }
        let mut cur = id;
        loop
            invariant
                tree.wf(),
                parents_precede(tree.spec_msgs()),
                deepest_last(tree.spec_children(), folded@, cur) == deepest_last(tree.spec_children(), folded@, id),
            decreases u64::MAX - cur,
        {
            let prev = cur;
            if !Self::find_last_child_in_tree(folded, tree, &mut cur) {
                return cur;
            }
            assert(cur > prev) by {
                let ch = tree.spec_children()[prev];
                assert(ch.contains(cur)) by {
                    assert(ch[ch.len() - 1] == cur);
                }
                assert(crate::store::is_child_of(tree.spec_msgs(), cur, prev));
                assert(tree.spec_msgs().contains_key(cur));
            }
        }
    }

    /// Moves `id` to the message drawn just above it, changing `tree` where
    /// that message lies in the previous tree.
    fn find_above_msg_in_tree<M: Msg, S: MsgStore<M>>(
        store: &S,
        folded: &HashSet<u64>,
        tree: &mut Tree<M>,
        id: &mut u64,
    ) -> (r: Result<bool, S::Error>)
        requires
            fetched(*store, *old(tree)),
        ensures
            S::spec_never_fails() ==> r is Ok,
            fetched(*store, *final(tree)),
            match r {
                Ok(moved) => {
                    let step = above_step(*store, folded@, old(tree).spec_root(), *old(id));
                    &&& moved == (step is Some)
                    &&& match step {
                        Some((root, a)) => final(tree).spec_root() == root && *final(id) == a,
                        None => *final(id) == *old(id),
                    }
                },
                Err(_) => *final(id) == *old(id),
            },
    {
        match Self::find_prev_sibling(store, tree, id) {
            Err(e) => Err(e),
            Ok(true) => {
                *id = Self::descend_last(folded, tree, *id);
                Ok(true)
            },
            Ok(false) => Ok(Self::find_parent(tree, id)),
        }
    }

    /// Moves `id` to the message drawn just below it, changing `tree` where
    /// that message lies in the next tree.
    fn find_below_msg_in_tree<M: Msg, S: MsgStore<M>>(
        store: &S,
        folded: &HashSet<u64>,
        tree: &mut Tree<M>,
        id: &mut u64,
    ) -> (r: Result<bool, S::Error>)
        requires
            fetched(*store, *old(tree)),
        ensures
            S::spec_never_fails() ==> r is Ok,
            fetched(*store, *final(tree)),
            match r {
                Ok(moved) => {
                    let step = below_step(*store, folded@, old(tree).spec_root(), *old(id));
                    &&& moved == (step is Some)
                    &&& match step {
                        Some((root, b)) => final(tree).spec_root() == root && *final(id) == b,
                        None => *final(id) == *old(id),
                    }
                },
                Err(_) => *final(id) == *old(id),
            },
    {
        if Self::find_first_child_in_tree(folded, tree, id) {
            return Ok(true);
        }
        match Self::find_next_sibling(store, tree, id) {
            Err(e) => {
                return Err(e);
            },
            Ok(true) => {
                return Ok(true);
            },
            Ok(false) => {},
        }
        let ghost root = tree.spec_root();
        let ghost start = *id;
        let ghost target = below_step(*store, folded@, root, start);
        assert(target == next_of_ancestor(*store, root, start));
        let mut tmp_id = *id;
        loop
            invariant
                fetched(*store, *tree),
                tree.spec_root() == root,
                *id == start,
                old(tree).spec_root() == root,
                *old(id) == start,
                target == below_step(*store, folded@, root, start),
                target == next_of_ancestor(*store, root, tmp_id),
            decreases tmp_id,
        {
            let prev = tmp_id;
            if !Self::find_parent(tree, &mut tmp_id) {
                return Ok(false);
            }
            assert(tmp_id < prev) by {
                assert(tree.spec_msgs().contains_key(prev));
            }
            match Self::find_next_sibling(store, tree, &mut tmp_id) {
                Err(e) => {
                    return Err(e);
                },
                Ok(true) => {
                    *id = tmp_id;
                    return Ok(true);
                },
                Ok(false) => {},
            }
        }
    }

    /// Moves to the root of the oldest tree, if there is one.
    pub fn move_to_top<M: Msg, S: MsgStore<M>>(&mut self, store: &S) -> (r: Result<(), S::Error>)
        ensures
            S::spec_never_fails() ==> r is Ok,
            r is Ok ==> *final(self) == moved_to_top(*store, *old(self)),
            r is Err ==> *final(self) == *old(self),
    {
        match store.first_root_id() {
            Err(e) => Err(e),
            Ok(first) => {
                if let Some(f) = first {
                    *self = Self::Msg(f);
                }
                Ok(())
            },
        }
    }

    /// Moves to the next older message.
    pub fn move_to_older_msg<M: Msg, S: MsgStore<M>>(&mut self, store: &S) -> (r: Result<(), S::Error>)
        ensures
            S::spec_never_fails() ==> r is Ok,
            r is Ok ==> *final(self) == match *old(self) {
                Cursor::Msg(id) => moved_older(*old(self), store.spec_older_msg_id(id), None),
                c => moved_older(c, None, store.spec_newest_msg_id()),
            },
            r is Err ==> *final(self) == *old(self),
    {
        match *self {
            Self::Msg(id) => match store.older_msg_id(&id) {
                Err(e) => Err(e),
                Ok(older) => {
                    if let Some(o) = older {
                        *self = Self::Msg(o);
                    }
                    Ok(())
                },
            },
            Self::Bottom | Self::Pseudo { .. } => match store.newest_msg_id() {
                Err(e) => Err(e),
                Ok(newest) => {
                    if let Some(n) = newest {
                        *self = Self::Msg(n);
                    }
                    Ok(())
                },
            },
            _ => Ok(()),
        }
    }

    /// Moves to the next newer message; past the newest lies the bottom.
    pub fn move_to_newer_msg<M: Msg, S: MsgStore<M>>(&mut self, store: &S) -> (r: Result<(), S::Error>)
        ensures
            S::spec_never_fails() ==> r is Ok,
            r is Ok ==> *final(self) == match *old(self) {
                Cursor::Msg(id) => moved_newer(*old(self), store.spec_newer_msg_id(id)),
                c => moved_newer(c, None),
            },
            r is Err ==> *final(self) == *old(self),
    {
        match *self {
            Self::Msg(id) => match store.newer_msg_id(&id) {
                Err(e) => Err(e),
                Ok(newer) => {
                    match newer {
                        Some(n) => {
                            *self = Self::Msg(n);
                        },
                        None => {
                            *self = Self::Bottom;
                        },
                    }
                    Ok(())
                },
            },
            Self::Pseudo { .. } => {
                *self = Self::Bottom;
                Ok(())
            },
            _ => Ok(()),
        }
    }

    /// Moves to the next older message not yet seen.
    pub fn move_to_older_unseen_msg<M: Msg, S: MsgStore<M>>(&mut self, store: &S) -> (r: Result<(), S::Error>)
        ensures
            S::spec_never_fails() ==> r is Ok,
            r is Ok ==> *final(self) == match *old(self) {
                Cursor::Msg(id) => moved_older(*old(self), store.spec_older_unseen_msg_id(id), None),
                c => moved_older(c, None, store.spec_newest_unseen_msg_id()),
            },
            r is Err ==> *final(self) == *old(self),
    {
        match *self {
            Self::Msg(id) => match store.older_unseen_msg_id(&id) {
                Err(e) => Err(e),
                Ok(older) => {
                    if let Some(o) = older {
                        *self = Self::Msg(o);
                    }
                    Ok(())
                },
            },
            Self::Bottom | Self::Pseudo { .. } => match store.newest_unseen_msg_id() {
                Err(e) => Err(e),
                Ok(newest) => {
                    if let Some(n) = newest {
                        *self = Self::Msg(n);
                    }
                    Ok(())
                },
            },
            _ => Ok(()),
        }
    }

    /// Moves to the next newer message not yet seen; past the newest lies
    /// the bottom.
    pub fn move_to_newer_unseen_msg<M: Msg, S: MsgStore<M>>(&mut self, store: &S) -> (r: Result<(), S::Error>)
        ensures
            S::spec_never_fails() ==> r is Ok,
            r is Ok ==> *final(self) == match *old(self) {
                Cursor::Msg(id) => moved_newer(*old(self), store.spec_newer_unseen_msg_id(id)),
                c => moved_newer(c, None),
            },
            r is Err ==> *final(self) == *old(self),
    {
        match *self {
            Self::Msg(id) => match store.newer_unseen_msg_id(&id) {
                Err(e) => Err(e),
                Ok(newer) => {
                    match newer {
                        Some(n) => {
                            *self = Self::Msg(n);
                        },
                        None => {
                            *self = Self::Bottom;
                        },
                    }
                    Ok(())
                },
            },
            Self::Pseudo { .. } => {
                *self = Self::Bottom;
                Ok(())
            },
            _ => Ok(()),
        }
    }

    /// Moves to the parent of the message, or to the message replied to.
    pub fn move_to_parent<M: Msg, S: MsgStore<M>>(&mut self, store: &S) -> (r: Result<(), S::Error>)
        ensures
            S::spec_never_fails() ==> r is Ok,
            r is Ok ==> *final(self) == moved_to_parent(*store, *old(self)),
            r is Err ==> *final(self) == *old(self),
    {
        match *self {
            Self::Editor { parent, .. } | Self::Pseudo { parent, .. } => {
                if let Some(parent_id) = parent {
                    *self = Self::Msg(parent_id);
                }
                Ok(())
            },
            Self::Msg(id) => match store.path(&id) {
                Err(e) => Err(e),
                Ok(path) => {
                    let segments = path.parent_segments();
                    if segments.len() > 0 {
                        *self = Self::Msg(segments[segments.len() - 1]);
                    }
                    Ok(())
                },
            },
            _ => Ok(()),
        }
    }

    /// Moves to the root of the tree.
    pub fn move_to_root<M: Msg, S: MsgStore<M>>(&mut self, store: &S) -> (r: Result<(), S::Error>)
        ensures
            S::spec_never_fails() ==> r is Ok,
            r is Ok ==> *final(self) == moved_to_root(*store, *old(self)),
            r is Err ==> *final(self) == *old(self),
    {
        match *self {
            Self::Pseudo { parent: Some(parent), .. } => match store.path(&parent) {
                Err(e) => Err(e),
                Ok(path) => {
                    *self = Self::Msg(*path.first());
                    Ok(())
                },
            },
            Self::Msg(id) => match store.path(&id) {
                Err(e) => Err(e),
                Ok(path) => {
                    *self = Self::Msg(*path.first());
                    Ok(())
                },
            },
            _ => Ok(()),
        }
    }

    /// Moves to the previous sibling.
    pub fn move_to_prev_sibling<M: Msg, S: MsgStore<M>>(&mut self, store: &S) -> (r: Result<(), S::Error>)
        ensures
            S::spec_never_fails() ==> r is Ok,
            r is Ok ==> *final(self) == moved_to_prev_sibling(*store, *old(self)),
            r is Err ==> *final(self) == *old(self),
    {
        match *self {
            Self::Bottom | Self::Pseudo { parent: None, .. } => match store.last_root_id() {
                Err(e) => Err(e),
                Ok(last) => {
                    if let Some(l) = last {
                        *self = Self::Msg(l);
                    }
                    Ok(())
                },
            },
            Self::Msg(msg) => {
                let path = match store.path(&msg) {
                    Err(e) => {
                        return Err(e);
                    },
                    Ok(p) => p,
                };
                let mut tree = match store.tree(path.first()) {
                    Err(e) => {
                        return Err(e);
                    },
                    Ok(t) => t,
                };
                let mut id = msg;
                match Self::find_prev_sibling(store, &mut tree, &mut id) {
                    Err(e) => Err(e),
                    Ok(_) => {
                        *self = Self::Msg(id);
                        Ok(())
                    },
                }
            },
            Self::Editor { .. } => Ok(()),
            Self::Pseudo { parent: Some(parent), .. } => {
                let path = match store.path(&parent) {
                    Err(e) => {
                        return Err(e);
                    },
                    Ok(p) => p,
                };
                let tree = match store.tree(path.first()) {
                    Err(e) => {
                        return Err(e);
                    },
                    Ok(t) => t,
                };
                if let Some(children) = tree.children(&parent) {
                    if children.len() > 0 {
                        *self = Self::Msg(children[children.len() - 1]);
                    }
                }
                Ok(())
            },
        }
    }

    /// Moves to the next sibling; past the newest root lies the bottom.
    pub fn move_to_next_sibling<M: Msg, S: MsgStore<M>>(&mut self, store: &S) -> (r: Result<(), S::Error>)
        ensures
            S::spec_never_fails() ==> r is Ok,
            r is Ok ==> *final(self) == moved_to_next_sibling(*store, *old(self)),
            r is Err ==> *final(self) == *old(self),
    {
        match *self {
            Self::Msg(msg) => {
                let path = match store.path(&msg) {
                    Err(e) => {
                        return Err(e);
                    },
                    Ok(p) => p,
                };
                let mut tree = match store.tree(path.first()) {
                    Err(e) => {
                        return Err(e);
                    },
                    Ok(t) => t,
                };
                let mut id = msg;
                match Self::find_next_sibling(store, &mut tree, &mut id) {
                    Err(e) => Err(e),
                    Ok(true) => {
                        *self = Self::Msg(id);
                        Ok(())
                    },
                    Ok(false) => {
                        if tree.parent(&id).is_none() {
                            *self = Self::Bottom;
                        }
                        Ok(())
                    },
                }
            },
            Self::Pseudo { parent: None, .. } => {
                *self = Self::Bottom;
                Ok(())
            },
            _ => Ok(()),
        }
    }

    /// Moves up by one message as drawn, skipping the replies to folded
    /// messages.
    pub fn move_up_in_tree<M: Msg, S: MsgStore<M>>(&mut self, store: &S, folded: &HashSet<u64>) -> (r: Result<(), S::Error>)
        ensures
            S::spec_never_fails() ==> r is Ok,
            r is Ok ==> *final(self) == moved_up(*store, folded@, *old(self)),
            r is Err ==> *final(self) == *old(self),
    {
        match *self {
            Self::Bottom | Self::Pseudo { parent: None, .. } => match store.last_root_id() {
                Err(e) => Err(e),
                Ok(None) => Ok(()),
                Ok(Some(last_root_id)) => match store.tree(&last_root_id) {
                    Err(e) => Err(e),
                    Ok(tree) => {
                        *self = Self::Msg(Self::descend_last(folded, &tree, last_root_id));
                        Ok(())
                    },
                },
            },
            Self::Msg(msg) => {
                let path = match store.path(&msg) {
                    Err(e) => {
                        return Err(e);
                    },
                    Ok(p) => p,
                };
                let mut tree = match store.tree(path.first()) {
                    Err(e) => {
                        return Err(e);
                    },
                    Ok(t) => t,
                };
                let mut id = msg;
                match Self::find_above_msg_in_tree(store, folded, &mut tree, &mut id) {
                    Err(e) => Err(e),
                    Ok(_) => {
                        *self = Self::Msg(id);
                        Ok(())
                    },
                }
            },
            Self::Editor { .. } => Ok(()),
            Self::Pseudo { parent: Some(parent), .. } => match store.tree(&parent) {
                Err(e) => Err(e),
                Ok(tree) => {
                    *self = Self::Msg(Self::descend_last(folded, &tree, parent));
                    Ok(())
                },
            },
        }
    }

    /// Moves down by one message as drawn, skipping the replies to folded
    /// messages; below the last message lies the bottom.
    pub fn move_down_in_tree<M: Msg, S: MsgStore<M>>(&mut self, store: &S, folded: &HashSet<u64>) -> (r: Result<(), S::Error>)
        ensures
            S::spec_never_fails() ==> r is Ok,
            r is Ok ==> *final(self) == moved_down(*store, folded@, *old(self)),
            r is Err ==> *final(self) == *old(self),
    {
        match *self {
            Self::Msg(msg) => {
                let path = match store.path(&msg) {
                    Err(e) => {
                        return Err(e);
                    },
                    Ok(p) => p,
                };
                let mut tree = match store.tree(path.first()) {
                    Err(e) => {
                        return Err(e);
                    },
                    Ok(t) => t,
                };
                let mut id = msg;
                match Self::find_below_msg_in_tree(store, folded, &mut tree, &mut id) {
                    Err(e) => Err(e),
                    Ok(true) => {
                        *self = Self::Msg(id);
                        Ok(())
                    },
                    Ok(false) => {
                        *self = Self::Bottom;
                        Ok(())
                    },
                }
            },
            Self::Pseudo { parent: None, .. } => {
                *self = Self::Bottom;
                Ok(())
            },
            Self::Pseudo { parent: Some(parent), .. } => {
                let mut tree = match store.tree(&parent) {
                    Err(e) => {
                        return Err(e);
                    },
                    Ok(t) => t,
                };
                let mut id = Self::descend_last(folded, &tree, parent);
                match Self::find_below_msg_in_tree(store, folded, &mut tree, &mut id) {
                    Err(e) => Err(e),
                    Ok(true) => {
                        *self = Self::Msg(id);
                        Ok(())
                    },
                    Ok(false) => {
                        *self = Self::Bottom;
                        Ok(())
                    },
                }
            },
            _ => Ok(()),
        }
    }

    /// The parent of a reply written normally from this cursor: `Some(None)`
    /// for a new thread from the bottom, `Some(Some(id))` for a reply to `id`,
    /// `None` where no reply can start.
    pub fn parent_for_normal_tree_reply<M: Msg, S: MsgStore<M>>(&self, store: &S) -> (r: Result<Option<Option<u64>>, S::Error>)
        ensures
            S::spec_never_fails() ==> r is Ok,
            *self is Bottom ==> (r matches Ok(p) && p == Some(None::<u64>)),
            (*self is Editor || *self is Pseudo) ==> (r matches Ok(p) && p is None),
            r matches Ok(p) ==> p == normal_reply_for(*store, *self),
    {
        match *self {
            Self::Bottom => Ok(Some(None)),
            Self::Msg(id) => {
                let path = match store.path(&id) {
                    Err(e) => {
                        return Err(e);
                    },
                    Ok(p) => p,
                };
                let tree = match store.tree(path.first()) {
                    Err(e) => {
                        return Err(e);
                    },
                    Ok(t) => t,
                };
                Ok(
                    Some(
                        Some(
                            if tree.next_sibling(&id).is_some() {
                                // A reply to a message that has further siblings should be
                                // a direct reply. An indirect reply might end up a lot
                                // further down in the current conversation.
                                id
                            } else if let Some(parent) = tree.parent(&id) {
                                // A reply to a message without younger siblings should be
                                // an indirect reply so as not to create unnecessarily deep
                                // threads.
                                parent
                            } else {
                                // When replying to a top-level message, it makes sense to
                                // avoid creating unnecessary new threads.
                                id
                            },
                        ),
                    ),
                )
            },
            _ => Ok(None),
        }
    }

    /// The parent of a reply written the other way from this cursor; see
    /// [`Self::parent_for_normal_tree_reply`].
    pub fn parent_for_alternate_tree_reply<M: Msg, S: MsgStore<M>>(&self, store: &S) -> (r: Result<Option<Option<u64>>, S::Error>)
        ensures
            S::spec_never_fails() ==> r is Ok,
            *self is Bottom ==> (r matches Ok(p) && p == Some(None::<u64>)),
            (*self is Editor || *self is Pseudo) ==> (r matches Ok(p) && p is None),
            r matches Ok(p) ==> p == alternate_reply_for(*store, *self),
    {
        match *self {
            Self::Bottom => Ok(Some(None)),
            Self::Msg(id) => {
                let path = match store.path(&id) {
                    Err(e) => {
                        return Err(e);
                    },
                    Ok(p) => p,
                };
                let tree = match store.tree(path.first()) {
                    Err(e) => {
                        return Err(e);
                    },
                    Ok(t) => t,
                };
                Ok(
                    Some(
                        Some(
                            if tree.next_sibling(&id).is_none() {
                                id
                            } else if let Some(parent) = tree.parent(&id) {
                                parent
                            } else {
                                id
                            },
                        ),
                    ),
                )
            },
            _ => Ok(None),
        }
    }
}

/// The block a cursor position corresponds to when messages are drawn as
/// full trees: zero-height blocks mark the bottom and the place after all
/// children of a message.
#[derive(Debug, Eq)]
pub enum TreeBlockId<Id> {
    /// The zero-height block at the very bottom of the chat.
    Bottom,
    /// A message.
    Msg(Id),
    /// The zero-height block after all children of a message.
    After(Id),
}

/// Two block ids are equal when they are of the same kind and their message
/// ids (if any) are equal.
impl<Id: PartialEq> PartialEq for TreeBlockId<Id> {
    fn eq(&self, other: &Self) -> (r: bool) {
        match (self, other) {
            (Self::Bottom, Self::Bottom) => true,
            (Self::Msg(a), Self::Msg(b)) => a.eq(b),
            (Self::After(a), Self::After(b)) => a.eq(b),
            _ => false,
        }
    }
}

impl<Id: PartialEq> PartialEqSpecImpl for TreeBlockId<Id> {
    open spec fn obeys_eq_spec() -> bool {
        Id::obeys_eq_spec()
    }

    open spec fn eq_spec(&self, other: &Self) -> bool {
        match (*self, *other) {
            (TreeBlockId::Bottom, TreeBlockId::Bottom) => true,
            (TreeBlockId::Msg(a), TreeBlockId::Msg(b)) => a.eq_spec(&b),
            (TreeBlockId::After(a), TreeBlockId::After(b)) => a.eq_spec(&b),
            _ => false,
        }
    }
}

impl<Id: Clone> TreeBlockId<Id> {
    /// The block at which the cursor is drawn.
    pub fn from_cursor(cursor: &Cursor<Id>) -> (r: Self)
        ensures
            match (*cursor, r) {
                (Cursor::Bottom, TreeBlockId::Bottom) => true,
                (Cursor::Editor { parent: None, .. }, TreeBlockId::Bottom) => true,
                (Cursor::Pseudo { parent: None, .. }, TreeBlockId::Bottom) => true,
                (Cursor::Msg(id), TreeBlockId::Msg(b)) => cloned(id, b),
                (Cursor::Editor { parent: Some(id), .. }, TreeBlockId::After(b)) => cloned(id, b),
                (Cursor::Pseudo { parent: Some(id), .. }, TreeBlockId::After(b)) => cloned(id, b),
                _ => false,
            },
    {
        match cursor {
            Cursor::Bottom => Self::Bottom,
            Cursor::Editor { parent: None, .. } => Self::Bottom,
            Cursor::Pseudo { parent: None, .. } => Self::Bottom,
            Cursor::Msg(id) => Self::Msg(id.clone()),
            Cursor::Editor { parent: Some(id), .. } => Self::After(id.clone()),
            Cursor::Pseudo { parent: Some(id), .. } => Self::After(id.clone()),
        }
    }
}

impl<Id> TreeBlockId<Id> {
    /// The message id of a message block or of the block after a message.
    pub fn any_id(&self) -> (r: Option<&Id>)
        ensures
            match *self {
                TreeBlockId::Bottom => r is None,
                TreeBlockId::Msg(id) => r == Some(&id),
                TreeBlockId::After(id) => r == Some(&id),
            },
    {
        match self {
            Self::Bottom => None,
            Self::Msg(id) => Some(id),
            Self::After(id) => Some(id),
        }
    }

    /// The message id of a message block.
    pub fn msg_id(&self) -> (r: Option<&Id>)
        ensures
            match *self {
                TreeBlockId::Msg(id) => r == Some(&id),
                _ => r is None,
            },
    {
        match self {
            Self::Msg(id) => Some(id),
            _ => None,
        }
    }
}

/// Whether the tree with root `first` lies above the tree with root `second`,
/// where `None` stands for the bottom of the chat.
pub fn root_id_is_above_root_id(first: Option<u64>, second: Option<u64>) -> (r: bool)
    ensures
        r == match (first, second) {
            (Some(_), None) => true,
            (Some(a), Some(b)) => a < b,
            _ => false,
        },
{
    match (first, second) {
        (Some(_), None) => true,
        (Some(a), Some(b)) => a < b,
        _ => false,
    }
}

/// Replying normally and replying the other way pick the message and its
/// parent between them; for a top-level message both pick the message.
pub proof fn lemma_reply_parents<M: Msg>(tree: Tree<M>, id: u64)
    ensures
        match tree.spec_parent_of(id) {
            Some(p) => (normal_reply_parent(tree, id) == id && alternate_reply_parent(tree, id) == p)
                || (normal_reply_parent(tree, id) == p && alternate_reply_parent(tree, id) == id),
            None => normal_reply_parent(tree, id) == id && alternate_reply_parent(tree, id) == id,
        },
{
}

} // verus!
