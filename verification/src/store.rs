//! Messages, the trees they form, and paths from a tree's root to a message.

use std::collections::HashMap;

use vstd::prelude::*;

verus! {

broadcast use vstd::std_specs::hash::group_hash_axioms;

/// A message that is part of a tree: it has an id and may reply to a parent.
/// Implementations that are not verified may leave the spec functions
/// unspecified.
pub trait Msg {
    open spec fn spec_id(&self) -> u64 {
        arbitrary()
    }

    open spec fn spec_parent(&self) -> Option<u64> {
        arbitrary()
    }

    open spec fn spec_seen(&self) -> bool {
        arbitrary()
    }

    /// An id no message has: larger than the id of any message.
    open spec fn spec_last_possible_id() -> u64 {
        arbitrary()
    }

    fn id(&self) -> (r: u64)
        ensures
            r == self.spec_id(),
    ;

    fn parent(&self) -> (r: Option<u64>)
        ensures
            r == self.spec_parent(),
    ;

    fn seen(&self) -> (r: bool)
        ensures
            r == self.spec_seen(),
    ;

    /// The emoji shown after the author's nick; by default none.
    fn nick_emoji(&self) -> (r: Option<String>)
        default_ensures
            r is None,
    {
        None
    }

    fn last_possible_id() -> (r: u64)
        ensures
            r == Self::spec_last_possible_id(),
    ;
}

/// The messages of `msgs` by id; where ids repeat, the last message wins.
pub open spec fn msgs_by_id<M: Msg>(msgs: Seq<M>) -> Map<u64, M>
    decreases msgs.len(),
{
    if msgs.len() == 0 {
        Map::empty()
    } else {
        let rest = msgs_by_id(msgs.drop_first());
        if rest.contains_key(msgs[0].spec_id()) {
            rest
        } else {
            rest.insert(msgs[0].spec_id(), msgs[0])
        }
    }
}

/// `id` is a message in `msgs` that replies to `parent`.
pub open spec fn is_child_of<M: Msg>(msgs: Map<u64, M>, id: u64, parent: u64) -> bool {
    msgs.contains_key(id) && msgs[id].spec_parent() == Some(parent)
}

/// `id` is a message of `msgs` or the parent of one.
pub open spec fn is_tree_node<M: Msg>(msgs: Map<u64, M>, id: u64) -> bool {
    msgs.contains_key(id) || exists|k: u64| #[trigger] is_child_of(msgs, k, id)
}

/// The ids in `s` ascend strictly.
pub open spec fn strictly_ascending(s: Seq<u64>) -> bool {
    forall|i: int, j: int| 0 <= i < j < s.len() ==> s[i] < s[j]
}

/// Each message is stored under its own id; children lists exist exactly for
/// messages and the parents of messages, ascend, and hold exactly the messages
/// that reply to their parent.
pub open spec fn tree_parts_wf<M: Msg>(msgs: Map<u64, M>, children: Map<u64, Seq<u64>>) -> bool {
    &&& forall|k: u64| #[trigger] msgs.contains_key(k) ==> msgs[k].spec_id() == k
    &&& forall|k: u64| #[trigger] children.contains_key(k) <==> is_tree_node(msgs, k)
    &&& forall|p: u64| #[trigger]
        children.contains_key(p) ==> strictly_ascending(children[p]) && (forall|c: u64|
            children[p].contains(c) <==> #[trigger] is_child_of(msgs, c, p))
}

/// A path from the root of a tree down to a message; never empty.
pub struct Path<I>(Vec<I>);

impl<I> Path<I> {
    /// The segments of the path, from the root down.
    pub closed spec fn segments(&self) -> Seq<I> {
        self.0@
    }

    pub fn new(segments: Vec<I>) -> (r: Self)
        requires
            segments@.len() > 0,
        ensures
            r.segments() == segments@,
    {
        Self(segments)
    }

    /// All segments but the last: the ancestors of the message.
    pub fn parent_segments(&self) -> (r: &[I])
        ensures
            r@ == self.segments().drop_last(),
    {
        proof {
            use_type_invariant(self);
        }
        let n = self.0.len() - 1;
        vstd::slice::slice_subrange(self.0.as_slice(), 0, n)
    }

    /// The root of the path.
    pub fn first(&self) -> (r: &I)
        ensures
            *r == self.segments()[0],
    {
        proof {
            use_type_invariant(self);
        }
        &self.0[0]
    }

    /// The root of the path.
    pub fn into_first(self) -> (r: I)
        ensures
            r == self.segments()[0],
    {
        proof {
            use_type_invariant(&self);
        }
        let mut v = self.0;
        v.swap_remove(0)
    }

    #[verifier::type_invariant]
    spec fn not_empty(&self) -> bool {
        self.0@.len() > 0
    }
}

/// The messages of one tree, with the children of each message in ascending
/// order of their ids.
pub struct Tree<M: Msg> {
    root: u64,
    msgs: HashMap<u64, M>,
    children: HashMap<u64, Vec<u64>>,
}

impl<M: Msg> Tree<M> {
    /// The id of the tree's root.
    pub closed spec fn spec_root(&self) -> u64 {
        self.root
    }

    /// The tree's messages by id.
    pub closed spec fn spec_msgs(&self) -> Map<u64, M> {
        self.msgs@
    }

    /// The children of each message or parent in the tree.
    pub closed spec fn spec_children(&self) -> Map<u64, Seq<u64>> {
        self.children@.map_values(|v: Vec<u64>| v@)
    }

    /// Each message is stored under its own id; children lists exist exactly
    /// for messages and the parents of messages, ascend, and hold exactly the
    /// messages that reply to their parent.
    pub open spec fn wf(&self) -> bool {
        tree_parts_wf(self.spec_msgs(), self.spec_children())
    }

    #[verifier::type_invariant]
    pub open spec fn tree_inv(&self) -> bool {
        self.wf()
    }

    /// The parent of message `id`, if it is in the tree and has one.
    pub open spec fn spec_parent_of(&self, id: u64) -> Option<u64> {
        if self.spec_msgs().contains_key(id) {
            self.spec_msgs()[id].spec_parent()
        } else {
            None
        }
    }

    /// The children of the parent of message `id`, `id` included.
    pub open spec fn spec_siblings(&self, id: u64) -> Option<Seq<u64>> {
        match self.spec_parent_of(id) {
            Some(p) => if self.spec_children().contains_key(p) {
                Some(self.spec_children()[p])
            } else {
                None
            },
            None => None,
        }
    }
}

/// The element of `s` just before `id`.
pub open spec fn before_in(s: Seq<u64>, id: u64) -> Option<u64> {
    if exists|j: int| 1 <= j < s.len() && s[j] == id {
        Some(s[(choose|j: int| 1 <= j < s.len() && s[j] == id) - 1])
    } else {
        None
    }
}

/// The element of `s` just after `id`.
pub open spec fn after_in(s: Seq<u64>, id: u64) -> Option<u64> {
    if exists|i: int| 0 <= i < s.len() - 1 && s[i] == id {
        Some(s[(choose|i: int| 0 <= i < s.len() - 1 && s[i] == id) + 1])
    } else {
        None
    }
}

/// Inserts `x` into the strictly ascending `v` at its place.
fn insert_sorted(v: &mut Vec<u64>, x: u64)
    requires
        strictly_ascending(old(v)@),
        !old(v)@.contains(x),
    ensures
        strictly_ascending(final(v)@),
        forall|y: u64| final(v)@.contains(y) <==> old(v)@.contains(y) || y == x,
{
    let mut i: usize = 0;
    while i < v.len() && v[i] < x
        invariant
            i <= v.len(),
            v@ == old(v)@,
            forall|j: int| 0 <= j < i ==> v@[j] < x,
        decreases v.len() - i,
    {
        i += 1;
    }
    v.insert(i, x);
    assert forall|y: u64| v@.contains(y) <==> old(v)@.contains(y) || y == x by {
        if v@.contains(y) {
            let k = choose|k: int| 0 <= k < v@.len() && v@[k] == y;
            if k < i {
                assert(old(v)@[k] == y);
            } else if k > i {
                assert(old(v)@[k - 1] == y);
            }
        }
        if old(v)@.contains(y) {
            let k = choose|k: int| 0 <= k < old(v)@.len() && old(v)@[k] == y;
            if k < i {
                assert(v@[k] == y);
            } else {
                assert(v@[k + 1] == y);
            }
        }
        if y == x {
            assert(v@[i as int] == x);
        }
    }
}

impl<M: Msg> Tree<M> {
    /// Builds the tree with root `root` from `msgs`, where later messages
    /// replace earlier ones with the same id.
    pub fn new(root: u64, msgs: Vec<M>) -> (r: Self)
        ensures
            r.wf(),
            r.spec_root() == root,
            r.spec_msgs() == msgs_by_id(msgs@),
    {
        let ghost all = msgs@;
        let mut msgs = msgs;
        let mut by_id: HashMap<u64, M> = HashMap::new();
        let mut entries: Vec<(u64, Option<u64>)> = Vec::new();
        assert(all.skip(all.len() as int) =~= Seq::<M>::empty());
        while msgs.len() > 0
            invariant
                msgs@ == all.take(msgs@.len() as int),
                msgs@.len() <= all.len(),
                by_id@ == msgs_by_id(all.skip(msgs@.len() as int)),
                forall|k: u64| #[trigger] by_id@.contains_key(k) ==> by_id@[k].spec_id() == k,
                forall|i: int, j: int|
                    0 <= i < j < entries@.len() ==> entries@[i].0 != entries@[j].0,
                forall|i: int|
                    0 <= i < entries@.len() ==> by_id@.contains_key(#[trigger] entries@[i].0)
                        && by_id@[entries@[i].0].spec_parent() == entries@[i].1,
                forall|k: u64| #[trigger]
                    by_id@.contains_key(k) ==> exists|i: int|
                        0 <= i < entries@.len() && #[trigger] entries@[i].0 == k,
            decreases msgs@.len(),
        {
            let ghost n = msgs@.len() as int;
            let m = msgs.pop().unwrap();
            assert(all.skip(n - 1).drop_first() =~= all.skip(n));
            assert(all.skip(n - 1)[0] == all[n - 1]);
            assert(msgs@ =~= all.take(n - 1));
            let id = m.id();
            if !by_id.contains_key(&id) {
                let parent = m.parent();
                let ghost old_entries = entries@;
                let ghost old_map = by_id@;
                entries.push((id, parent));
                by_id.insert(id, m);
                assert(entries@[entries@.len() - 1].0 == id);
                assert forall|k: u64| #[trigger] by_id@.contains_key(k) implies exists|i: int|
                    0 <= i < entries@.len() && #[trigger] entries@[i].0 == k by {
                    if k != id {
                        assert(old_map.contains_key(k));
                        let i = choose|i: int| 0 <= i < old_entries.len() && #[trigger] old_entries[i].0 == k;
                        assert(entries@[i] == old_entries[i]);
                    }
                }
            }
        }
        assert(all.skip(0) =~= all);

        let mut children: HashMap<u64, Vec<u64>> = HashMap::new();
        let mut j: usize = 0;
        while j < entries.len()
            invariant
                j <= entries@.len(),
                forall|k: u64| #[trigger] by_id@.contains_key(k) ==> by_id@[k].spec_id() == k,
                forall|a: int, b: int|
                    0 <= a < b < entries@.len() ==> entries@[a].0 != entries@[b].0,
                forall|i: int|
                    0 <= i < entries@.len() ==> by_id@.contains_key(#[trigger] entries@[i].0)
                        && by_id@[entries@[i].0].spec_parent() == entries@[i].1,
                forall|k: u64| #[trigger]
                    by_id@.contains_key(k) ==> exists|i: int|
                        0 <= i < entries@.len() && #[trigger] entries@[i].0 == k,
                forall|p: u64| #[trigger]
                    children@.contains_key(p) <==> exists|i: int|
                        0 <= i < j && (#[trigger] entries@[i].0 == p || entries@[i].1 == Some(p)),
                forall|p: u64| #[trigger]
                    children@.contains_key(p) ==> strictly_ascending(children@[p]@) && (forall|
                        c: u64,
                    |
                        children@[p]@.contains(c) <==> exists|i: int|
                            0 <= i < j && #[trigger] entries@[i].0 == c && entries@[i].1 == Some(p)),
            decreases entries@.len() - j,
        {
            let (id, parent) = entries[j];
            if !children.contains_key(&id) {
                children.insert(id, Vec::new());
            }
            if let Some(p) = parent {
                let mut v = match children.remove(&p) {
                    Some(v) => v,
                    None => Vec::new(),
                };
                assert(!v@.contains(id)) by {
                    if v@.contains(id) {
                        let i = choose|i: int| 0 <= i < j && #[trigger] entries@[i].0 == id && entries@[i].1 == Some(p);
                    }
                }
                insert_sorted(&mut v, id);
                children.insert(p, v);
            }
            j += 1;
        }

        let ghost ch = children@.map_values(|v: Vec<u64>| v@);
        assert(tree_parts_wf(by_id@, ch)) by {
            let msgs = by_id@;
            assert forall|k: u64| #[trigger] ch.contains_key(k) <==> is_tree_node(msgs, k) by {
                if ch.contains_key(k) {
                    let i = choose|i: int| 0 <= i < entries@.len() && (#[trigger] entries@[i].0 == k || entries@[i].1 == Some(k));
                    if entries@[i].0 != k {
                        assert(is_child_of(msgs, entries@[i].0, k));
                    }
                }
                assert(ch.contains_key(k) == children@.contains_key(k));
                if is_tree_node(msgs, k) {
                    if msgs.contains_key(k) {
                        let i = choose|i: int| 0 <= i < entries@.len() && #[trigger] entries@[i].0 == k;
                    } else {
                        let c = choose|c: u64| #[trigger] is_child_of(msgs, c, k);
                        let i = choose|i: int| 0 <= i < entries@.len() && #[trigger] entries@[i].0 == c;
                    }
                }
            }
            assert forall|p: u64| #[trigger] ch.contains_key(p) implies strictly_ascending(ch[p]) && (forall|c: u64|
                ch[p].contains(c) <==> #[trigger] is_child_of(msgs, c, p)) by {
                assert forall|c: u64| ch[p].contains(c) <==> #[trigger] is_child_of(msgs, c, p) by {
                    if is_child_of(msgs, c, p) {
                        let i = choose|i: int| 0 <= i < entries@.len() && #[trigger] entries@[i].0 == c;
                    }
                }
            }
        }
        Self { root, msgs: by_id, children }
    }
}

impl<M: Msg> Tree<M> {
    /// Number of messages in the tree.
    pub fn len(&self) -> (r: usize)
        ensures
            r == self.spec_msgs().len(),
    {
        self.msgs.len()
    }

    pub fn root(&self) -> (r: &u64)
        ensures
            *r == self.spec_root(),
    {
        &self.root
    }

    pub fn msg(&self, id: &u64) -> (r: Option<&M>)
        ensures
            match r {
                Some(m) => self.spec_msgs().contains_key(*id) && *m == self.spec_msgs()[*id],
                None => !self.spec_msgs().contains_key(*id),
            },
    {
        self.msgs.get(id)
    }

    pub fn parent(&self, id: &u64) -> (r: Option<u64>)
        ensures
            r == self.spec_parent_of(*id),
    {
        match self.msg(id) {
            Some(m) => m.parent(),
            None => None,
        }
    }

    pub fn children(&self, id: &u64) -> (r: Option<&[u64]>)
        ensures
            match r {
                Some(c) => self.spec_children().contains_key(*id) && c@ == self.spec_children()[*id],
                None => !self.spec_children().contains_key(*id),
            },
    {
        match self.children.get(id) {
            Some(c) => Some(c.as_slice()),
            None => None,
        }
    }

    pub fn siblings(&self, id: &u64) -> (r: Option<&[u64]>)
        ensures
            match r {
                Some(s) => self.spec_siblings(*id) == Some(s@),
                None => self.spec_siblings(*id) is None,
            },
    {
        if let Some(parent) = self.parent(id) {
            self.children(&parent)
        } else {
            None
        }
    }

    pub fn prev_sibling(&self, id: &u64) -> (r: Option<u64>)
        ensures
            r == match self.spec_siblings(*id) {
                Some(s) => before_in(s, *id),
                None => None,
            },
    {
        proof {
            use_type_invariant(self);
        }
        let siblings = self.siblings(id)?;
        let ghost s = siblings@;
        assert(strictly_ascending(s));
        let n = siblings.len();
        if n == 0 {
            return None;
        }
        let mut i: usize = 0;
        while i < n - 1
            invariant
                siblings@ == s,
                n == s.len(),
                n > 0,
                strictly_ascending(s),
                self.spec_siblings(*id) == Some(s),
                forall|j: int| 1 <= j <= i && j < s.len() ==> s[j] != *id,
            decreases siblings.len() - i,
        {
            if siblings[i + 1] == *id {
                assert(before_in(s, *id) == Some(s[i as int])) by {
                    assert(s[i + 1] == *id);
                    let c = choose|k: int| 1 <= k < s.len() && s[k] == *id;
                    assert(c == i + 1) by {
                        if c < i + 1 {
                            assert(s[c] != *id);
                        } else if c > i + 1 {
                            assert(s[i + 1] < s[c]);
                        }
                    }
                }
                return Some(siblings[i]);
            }
            i += 1;
        }
        None
    }

    pub fn next_sibling(&self, id: &u64) -> (r: Option<u64>)
        ensures
            r == match self.spec_siblings(*id) {
                Some(s) => after_in(s, *id),
                None => None,
            },
    {
        proof {
            use_type_invariant(self);
        }
        let siblings = self.siblings(id)?;
        let ghost s = siblings@;
        assert(strictly_ascending(s));
        let n = siblings.len();
        if n == 0 {
            return None;
        }
        let mut i: usize = 0;
        while i < n - 1
            invariant
                siblings@ == s,
                n == s.len(),
                n > 0,
                strictly_ascending(s),
                self.spec_siblings(*id) == Some(s),
                forall|j: int| 0 <= j < i && j + 1 < s.len() ==> s[j] != *id,
            decreases siblings.len() - i,
        {
            if siblings[i] == *id {
                assert(after_in(s, *id) == Some(s[i + 1])) by {
                    assert(s[i as int] == *id);
                    let c = choose|k: int| 0 <= k < s.len() - 1 && s[k] == *id;
                    assert(c == i) by {
                        if c < i {
                            assert(s[c] != *id);
                        } else if c > i {
                            assert(s[i as int] < s[c]);
                        }
                    }
                }
                return Some(siblings[i + 1]);
            }
            i += 1;
        }
        None
    }
}

impl<M: Msg> Tree<M> {
    /// The sibling after `id`, as `next_sibling` gives it.
    pub open spec fn spec_next_sibling(&self, id: u64) -> Option<u64> {
        match self.spec_siblings(id) {
            Some(s) => after_in(s, id),
            None => None,
        }
    }

    /// The sibling before `id`, as `prev_sibling` gives it.
    pub open spec fn spec_prev_sibling(&self, id: u64) -> Option<u64> {
        match self.spec_siblings(id) {
            Some(s) => before_in(s, id),
            None => None,
        }
    }

    /// `b` follows `a` among their siblings exactly when `a` precedes `b`;
    /// then `a` is the smaller, and no sibling lies between them.
    pub proof fn lemma_next_prev_sibling(&self, a: u64, b: u64)
        requires
            self.wf(),
        ensures
            self.spec_next_sibling(a) == Some(b) <==> self.spec_prev_sibling(b) == Some(a),
            self.spec_next_sibling(a) == Some(b) ==> a < b && self.spec_siblings(a) == self.spec_siblings(b)
                && forall|c: u64| #[trigger] self.spec_siblings(a)->0.contains(c) ==> !(a < c && c < b),
    {
        let msgs = self.spec_msgs();
        let ch = self.spec_children();
        if self.spec_next_sibling(a) == Some(b) {
            let p = self.spec_parent_of(a)->0;
            let s = ch[p];
            let i = choose|i: int| 0 <= i < s.len() - 1 && s[i] == a;
            assert(s[i] == a);
            assert(s.contains(s[i + 1]));
            assert(is_child_of(msgs, b, p));
            assert(self.spec_parent_of(b) == Some(p));
            assert(1 <= i + 1 < s.len() && s[i + 1] == b);
            let j = choose|j: int| 1 <= j < s.len() && s[j] == b;
            assert(j == i + 1) by {
                if j < i + 1 {
                    assert(s[j] < s[i + 1]);
                } else if j > i + 1 {
                    assert(s[i + 1] < s[j]);
                }
            }
            assert forall|c: u64| #[trigger] s.contains(c) implies !(a < c && c < b) by {
                let k = choose|k: int| 0 <= k < s.len() && s[k] == c;
                if k <= i {
                    if k < i {
                        assert(s[k] < s[i]);
                    }
                } else {
                    if k > i + 1 {
                        assert(s[i + 1] < s[k]);
                    }
                }
            }
        }
        if self.spec_prev_sibling(b) == Some(a) {
            let p = self.spec_parent_of(b)->0;
            let s = ch[p];
            let j = choose|j: int| 1 <= j < s.len() && s[j] == b;
            assert(s[j] == b);
            assert(s.contains(s[j - 1]));
            assert(is_child_of(msgs, a, p));
            assert(self.spec_parent_of(a) == Some(p));
            assert(0 <= j - 1 < s.len() - 1 && s[j - 1] == a);
            let i = choose|i: int| 0 <= i < s.len() - 1 && s[i] == a;
            assert(i == j - 1) by {
                if i < j - 1 {
                    assert(s[i] < s[j - 1]);
                } else if i > j - 1 {
                    assert(s[j - 1] < s[i]);
                }
            }
        }
    }
}

/// Every message replies to an older message: its parent's id is smaller
/// than its own.
pub open spec fn parents_precede<M: Msg>(msgs: Map<u64, M>) -> bool {
    forall|k: u64| #[trigger]
        msgs.contains_key(k) ==> match msgs[k].spec_parent() {
            Some(p) => p < k,
            None => true,
        }
}

/// Two trees with the same root, the same messages and the same children.
pub open spec fn same_tree<M: Msg>(a: Tree<M>, b: Tree<M>) -> bool {
    &&& a.spec_root() == b.spec_root()
    &&& a.spec_msgs() == b.spec_msgs()
    &&& a.spec_children() == b.spec_children()
}

/// Two strictly ascending sequences with the same elements are equal.
pub proof fn lemma_ascending_unique(a: Seq<u64>, b: Seq<u64>)
    requires
        strictly_ascending(a),
        strictly_ascending(b),
        forall|x: u64| a.contains(x) <==> b.contains(x),
    ensures
        a == b,
    decreases a.len(),
{
    if a.len() == 0 {
        if b.len() > 0 {
            assert(b.contains(b[0]));
        }
        assert(a =~= b);
    } else {
        assert(a.contains(a[0]));
        assert(b.len() > 0);
        assert(b.contains(b[0]));
        let i = choose|i: int| 0 <= i < b.len() && b[i] == a[0];
        let j = choose|j: int| 0 <= j < a.len() && a[j] == b[0];
        assert(a[0] == b[0]) by {
            if i > 0 {
                assert(b[0] < b[i]);
            }
            if j > 0 {
                assert(a[0] < a[j]);
            }
        }
        let a1 = a.drop_first();
        let b1 = b.drop_first();
        assert forall|x: u64| a1.contains(x) <==> b1.contains(x) by {
            if a1.contains(x) {
                let k = choose|k: int| 0 <= k < a1.len() && a1[k] == x;
                assert(a[k + 1] == x);
                assert(a[0] < x);
                assert(a.contains(x));
                let m = choose|m: int| 0 <= m < b.len() && b[m] == x;
                assert(m != 0);
                assert(b1[m - 1] == x);
            }
            if b1.contains(x) {
                let k = choose|k: int| 0 <= k < b1.len() && b1[k] == x;
                assert(b[k + 1] == x);
                assert(b[0] < x);
                assert(b.contains(x));
                let m = choose|m: int| 0 <= m < a.len() && a[m] == x;
                assert(m != 0);
                assert(a1[m - 1] == x);
            }
        }
        lemma_ascending_unique(a1, b1);
        assert(a =~= b) by {
            assert forall|k: int| 0 <= k < a.len() implies a[k] == b[k] by {
                if k > 0 {
                    assert(a[k] == a1[k - 1]);
                    assert(b[k] == b1[k - 1]);
                }
            }
        }
    }
}

impl<M: Msg> Tree<M> {
    /// Two well-formed trees with the same messages have the same children.
    pub proof fn lemma_children_determined(a: Self, b: Self)
        requires
            a.wf(),
            b.wf(),
            a.spec_msgs() == b.spec_msgs(),
        ensures
            a.spec_children() == b.spec_children(),
    {
        let ca = a.spec_children();
        let cb = b.spec_children();
        let msgs = a.spec_msgs();
        assert forall|p: u64| #[trigger] ca.contains_key(p) <==> cb.contains_key(p) by {
            assert(ca.contains_key(p) <==> is_tree_node(msgs, p));
            assert(cb.contains_key(p) <==> is_tree_node(msgs, p));
        }
        assert forall|p: u64| #[trigger] ca.contains_key(p) implies ca[p] == cb[p] by {
            assert(cb.contains_key(p));
            assert forall|x: u64| ca[p].contains(x) <==> cb[p].contains(x) by {
                assert(ca[p].contains(x) <==> is_child_of(msgs, x, p));
                assert(cb[p].contains(x) <==> is_child_of(msgs, x, p));
            }
            lemma_ascending_unique(ca[p], cb[p]);
        }
        assert(ca =~= cb);
    }
}

/// The children recorded for `id`, or none.
pub open spec fn children_or_empty(children: Map<u64, Seq<u64>>, id: u64) -> Seq<u64> {
    if children.contains_key(id) {
        children[id]
    } else {
        Seq::empty()
    }
}

/// The ids in `s` together with all their descendants counted. Replies are
/// younger than what they reply to, so every id in `s` exceeds `bound`; an id
/// that does not ends the count.
pub open spec fn forest_size(children: Map<u64, Seq<u64>>, bound: u64, s: Seq<u64>) -> nat
    decreases u64::MAX - bound, s.len(),
{
    if s.len() == 0 {
        0
    } else if s.last() <= bound {
        0
    } else {
        let c = s.last();
        forest_size(children, bound, s.drop_last()) + 1 + forest_size(
            children,
            c,
            children_or_empty(children, c),
        )
    }
}

/// A prefix of `s` and the number of ids after it never exceed all of `s`
/// with its descendants.
pub proof fn lemma_forest_prefix(children: Map<u64, Seq<u64>>, bound: u64, s: Seq<u64>, j: int)
    requires
        forall|i: int| 0 <= i < s.len() ==> bound < #[trigger] s[i],
        0 <= j <= s.len(),
    ensures
        forest_size(children, bound, s.take(j)) + (s.len() - j) <= forest_size(children, bound, s),
    decreases s.len(),
{
    if j == s.len() {
        assert(s.take(j) =~= s);
    } else {
        let d = s.drop_last();
        assert(forall|i: int| 0 <= i < d.len() ==> bound < #[trigger] d[i] && d[i] == s[i]);
        lemma_forest_prefix(children, bound, d, j);
        assert(d.take(j) =~= s.take(j));
    }
}

impl<M: Msg> Tree<M> {
    /// The number of messages below `id`: its children, their children, and
    /// so on.
    pub open spec fn spec_subtree_size(&self, id: u64) -> nat {
        forest_size(self.spec_children(), id, children_or_empty(self.spec_children(), id))
    }

    /// Every child recorded in a well-formed tree of a store whose replies
    /// are younger than their parents has a larger id than its parent.
    pub proof fn lemma_children_follow(&self, id: u64)
        requires
            self.wf(),
            parents_precede(self.spec_msgs()),
        ensures
            forall|i: int|
                0 <= i < children_or_empty(self.spec_children(), id).len() ==> id
                    < #[trigger] children_or_empty(self.spec_children(), id)[i],
    {
        let ch = self.spec_children();
        if ch.contains_key(id) {
            assert forall|i: int| 0 <= i < ch[id].len() implies id < #[trigger] ch[id][i] by {
                let c = ch[id][i];
                assert(ch[id].contains(c));
                assert(is_child_of(self.spec_msgs(), c, id));
                assert(self.spec_msgs().contains_key(c));
            }
        }
    }

    /// The number of messages below `id`: its children, their children, and
    /// so on.
    pub fn subtree_size(&self, id: &u64) -> (r: usize)
        requires
            parents_precede(self.spec_msgs()),
            self.spec_subtree_size(*id) <= usize::MAX,
        ensures
            r == self.spec_subtree_size(*id),
        decreases u64::MAX - *id,
    {
        proof {
            use_type_invariant(self);
            self.lemma_children_follow(*id);
        }
        let ghost ch = self.spec_children();
        let ghost all = children_or_empty(ch, *id);
        let children: &[u64] = match self.children(id) {
            Some(c) => c,
            None => &[],
        };
        assert(children@ =~= all);
        proof {
            lemma_forest_prefix(ch, *id, all, 0);
            assert(all.take(0) =~= Seq::<u64>::empty());
        }
        let mut result: usize = children.len();
        let mut i: usize = 0;
        while i < children.len()
            invariant
                children@ == all,
                i <= all.len(),
                forall|k: int| 0 <= k < all.len() ==> *id < #[trigger] all[k],
                parents_precede(self.spec_msgs()),
                self.wf(),
                ch == self.spec_children(),
                forest_size(ch, *id, all) <= usize::MAX,
                result == (all.len() - i) + forest_size(ch, *id, all.take(i as int)),
            decreases all.len() - i,
        {
            let child = children[i];
            proof {
                let t = all.take(i + 1);
                assert(t.drop_last() =~= all.take(i as int));
                assert(t.last() == child);
                assert(forall|k: int| 0 <= k < t.len() ==> #[trigger] t[k] == all[k]);
                assert(forall|k: int| 0 <= k < t.len() ==> *id < #[trigger] t[k]);
                assert(t.len() > 0);
                lemma_forest_prefix(ch, *id, all, i + 1);
                assert(forest_size(ch, *id, t) == forest_size(ch, *id, all.take(i as int)) + 1
                    + forest_size(ch, child, children_or_empty(ch, child)));
            }
            let n = self.subtree_size(&child);
            result = result - 1 + n + 1;
            i += 1;
        }
        assert(all.take(all.len() as int) =~= all);
        result
    }
}

/// How many replies lead from the root of the tree down to `k`: none for the
/// root (and for what does not hang below it), one more than for its parent
/// for a message below it.
pub open spec fn depth<M: Msg>(tree: Tree<M>, k: u64) -> nat
    decreases k,
{
    if k == tree.spec_root() {
        0
    } else {
        match tree.spec_parent_of(k) {
            Some(p) => if p < k {
                1 + depth(tree, p)
            } else {
                0
            },
            None => 0,
        }
    }
}

/// Every count of replies in the tree fits into a `usize`, and so does the
/// depth of every message in it (which is how deeply it is indented).
pub open spec fn sizes_fit<M: Msg>(tree: Tree<M>) -> bool {
    &&& forall|k: u64| #[trigger] tree.spec_subtree_size(k) <= usize::MAX
    &&& forall|k: u64| #[trigger]
        is_tree_node(tree.spec_msgs(), k) ==> depth(tree, k) < usize::MAX
}

/// Where messages are kept: in memory or on disk.
///
/// The spec functions describe the store's contents; each method's result
/// is stated over them. A store promises that its trees are well-formed and
/// that replies are younger than what they reply to. A store whose contents
/// change while a cursor moves breaks these promises for that movement.
/// Implementations that are not verified (outside this crate) may leave the
/// spec functions unspecified.
pub trait MsgStore<M: Msg>: Sized {
    type Error;

    /// The store never fails: every method gives `Ok`. Stores kept in
    /// memory are of this kind; those on disk need not be.
    open spec fn spec_never_fails() -> bool {
        false
    }

    /// The store after message `id` is marked as seen (or unseen).
    open spec fn spec_with_seen(&self, id: u64, seen: bool) -> Self {
        arbitrary()
    }

    /// The store after message `id` and all older messages are marked as
    /// seen (or unseen).
    open spec fn spec_with_older_seen(&self, id: u64, seen: bool) -> Self {
        arbitrary()
    }

    /// The path from the root of its tree down to message `id`.
    open spec fn spec_path(&self, id: u64) -> Seq<u64> {
        arbitrary()
    }

    /// The message with id `id`, if there is one.
    open spec fn spec_msg(&self, id: u64) -> Option<M> {
        arbitrary()
    }

    /// The tree with root `root_id`.
    open spec fn spec_tree(&self, root_id: u64) -> Tree<M> {
        arbitrary()
    }

    /// The roots of the oldest and the newest tree.
    open spec fn spec_first_root_id(&self) -> Option<u64> {
        arbitrary()
    }

    open spec fn spec_last_root_id(&self) -> Option<u64> {
        arbitrary()
    }

    /// The root of the tree before and after the tree with root `root_id`.
    open spec fn spec_prev_root_id(&self, root_id: u64) -> Option<u64> {
        arbitrary()
    }

    open spec fn spec_next_root_id(&self, root_id: u64) -> Option<u64> {
        arbitrary()
    }

    /// The oldest and the newest message.
    open spec fn spec_oldest_msg_id(&self) -> Option<u64> {
        arbitrary()
    }

    open spec fn spec_newest_msg_id(&self) -> Option<u64> {
        arbitrary()
    }

    /// The message just older and just newer than message `id`.
    open spec fn spec_older_msg_id(&self, id: u64) -> Option<u64> {
        arbitrary()
    }

    open spec fn spec_newer_msg_id(&self, id: u64) -> Option<u64> {
        arbitrary()
    }

    /// The same among the messages not yet seen.
    open spec fn spec_oldest_unseen_msg_id(&self) -> Option<u64> {
        arbitrary()
    }

    open spec fn spec_newest_unseen_msg_id(&self) -> Option<u64> {
        arbitrary()
    }

    open spec fn spec_older_unseen_msg_id(&self, id: u64) -> Option<u64> {
        arbitrary()
    }

    open spec fn spec_newer_unseen_msg_id(&self, id: u64) -> Option<u64> {
        arbitrary()
    }

    /// How many messages are not yet seen.
    open spec fn spec_unseen_msgs_count(&self) -> nat {
        arbitrary()
    }

    fn path(&self, id: &u64) -> (r: Result<Path<u64>, Self::Error>)
        ensures
            Self::spec_never_fails() ==> r is Ok,
            r matches Ok(p) ==> p.segments() == self.spec_path(*id),
    ;

    fn msg(&self, id: &u64) -> (r: Result<Option<M>, Self::Error>)
        ensures
            Self::spec_never_fails() ==> r is Ok,
            r matches Ok(m) ==> m == self.spec_msg(*id),
    ;

    fn tree(&self, root_id: &u64) -> (r: Result<Tree<M>, Self::Error>)
        ensures
            Self::spec_never_fails() ==> r is Ok,
            r matches Ok(t) ==> same_tree(t, self.spec_tree(*root_id)) && t.spec_root() == *root_id
                && parents_precede(t.spec_msgs()) && sizes_fit(t),
    ;

    fn first_root_id(&self) -> (r: Result<Option<u64>, Self::Error>)
        ensures
            Self::spec_never_fails() ==> r is Ok,
            r matches Ok(x) ==> x == self.spec_first_root_id(),
    ;

    fn last_root_id(&self) -> (r: Result<Option<u64>, Self::Error>)
        ensures
            Self::spec_never_fails() ==> r is Ok,
            r matches Ok(x) ==> x == self.spec_last_root_id(),
    ;

    /// Trees are ordered by the ids of their roots: the one before has a
    /// smaller root id, the one after a larger one.
    fn prev_root_id(&self, root_id: &u64) -> (r: Result<Option<u64>, Self::Error>)
        ensures
            Self::spec_never_fails() ==> r is Ok,
            r matches Ok(x) ==> x == self.spec_prev_root_id(*root_id),
            r matches Ok(Some(p)) ==> p < *root_id,
    ;

    fn next_root_id(&self, root_id: &u64) -> (r: Result<Option<u64>, Self::Error>)
        ensures
            Self::spec_never_fails() ==> r is Ok,
            r matches Ok(x) ==> x == self.spec_next_root_id(*root_id),
            r matches Ok(Some(n)) ==> n > *root_id,
    ;

    fn oldest_msg_id(&self) -> (r: Result<Option<u64>, Self::Error>)
        ensures
            Self::spec_never_fails() ==> r is Ok,
            r matches Ok(x) ==> x == self.spec_oldest_msg_id(),
    ;

    fn newest_msg_id(&self) -> (r: Result<Option<u64>, Self::Error>)
        ensures
            Self::spec_never_fails() ==> r is Ok,
            r matches Ok(x) ==> x == self.spec_newest_msg_id(),
    ;

    fn older_msg_id(&self, id: &u64) -> (r: Result<Option<u64>, Self::Error>)
        ensures
            Self::spec_never_fails() ==> r is Ok,
            r matches Ok(x) ==> x == self.spec_older_msg_id(*id),
    ;

    fn newer_msg_id(&self, id: &u64) -> (r: Result<Option<u64>, Self::Error>)
        ensures
            Self::spec_never_fails() ==> r is Ok,
            r matches Ok(x) ==> x == self.spec_newer_msg_id(*id),
    ;

    fn oldest_unseen_msg_id(&self) -> (r: Result<Option<u64>, Self::Error>)
        ensures
            Self::spec_never_fails() ==> r is Ok,
            r matches Ok(x) ==> x == self.spec_oldest_unseen_msg_id(),
    ;

    fn newest_unseen_msg_id(&self) -> (r: Result<Option<u64>, Self::Error>)
        ensures
            Self::spec_never_fails() ==> r is Ok,
            r matches Ok(x) ==> x == self.spec_newest_unseen_msg_id(),
    ;

    fn older_unseen_msg_id(&self, id: &u64) -> (r: Result<Option<u64>, Self::Error>)
        ensures
            Self::spec_never_fails() ==> r is Ok,
            r matches Ok(x) ==> x == self.spec_older_unseen_msg_id(*id),
    ;

    fn newer_unseen_msg_id(&self, id: &u64) -> (r: Result<Option<u64>, Self::Error>)
        ensures
            Self::spec_never_fails() ==> r is Ok,
            r matches Ok(x) ==> x == self.spec_newer_unseen_msg_id(*id),
    ;

    fn unseen_msgs_count(&self) -> (r: Result<usize, Self::Error>)
        ensures
            Self::spec_never_fails() ==> r is Ok,
            r matches Ok(n) ==> n == self.spec_unseen_msgs_count(),
    ;

    /// Marks message `id` as seen or unseen.
    fn set_seen(&mut self, id: &u64, seen: bool) -> (r: Result<(), Self::Error>)
        ensures
            Self::spec_never_fails() ==> r is Ok,
            r is Ok ==> *final(self) == old(self).spec_with_seen(*id, seen),
    ;

    /// Marks message `id` and all older messages as seen or unseen.
    fn set_older_seen(&mut self, id: &u64, seen: bool) -> (r: Result<(), Self::Error>)
        ensures
            Self::spec_never_fails() ==> r is Ok,
            r is Ok ==> *final(self) == old(self).spec_with_older_seen(*id, seen),
    ;
}

} // verus!
