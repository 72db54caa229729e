//! Laying out message trees as stacks of blocks, before they are drawn.

use std::collections::HashSet;

use vstd::prelude::*;

use crate::cursor::{Cursor, TreeBlockId};
use crate::store::{children_or_empty, depth, forest_size, is_child_of, is_tree_node, parents_precede, sizes_fit, Msg, Tree};

verus! {

broadcast use vstd::std_specs::hash::group_hash_axioms;

/// What a block of a laid out tree shows.
#[derive(Debug, Clone, Copy, PartialEq, Eq, Structural)]
pub enum BlockKind {
    /// A message at `indent`, highlighted where the focused cursor is on it,
    /// with the number of replies hidden below it where it is folded and has
    /// some.
    Message { indent: usize, highlighted: bool, folded_info: Option<usize> },
    /// In place of a message missing from the store.
    Placeholder { indent: usize, highlighted: bool, folded_info: Option<usize> },
    /// The editor for a reply at `indent`.
    Editor { indent: usize },
    /// A reply at `indent` that is being sent.
    Pseudo { indent: usize },
    /// Nothing: a block without height that marks a place.
    Empty,
}

/// The number of hidden replies shown next to a message: for a folded
/// message with replies, how many there are below it.
pub open spec fn spec_folded_info<M: Msg>(tree: Tree<M>, id: u64, folded: Set<u64>) -> Option<usize> {
    if folded.contains(id) && tree.spec_subtree_size(id) > 0 {
        Some(tree.spec_subtree_size(id) as usize)
    } else {
        None
    }
}

/// The block of message `id` itself.
pub open spec fn msg_block<M: Msg>(
    tree: Tree<M>,
    id: u64,
    indent: nat,
    folded: Set<u64>,
    cursor: Cursor<u64>,
    focused: bool,
) -> (TreeBlockId<u64>, BlockKind) {
    let highlighted = cursor == Cursor::<u64>::Msg(id) && focused;
    let info = spec_folded_info(tree, id, folded);
    if tree.spec_msgs().contains_key(id) {
        (TreeBlockId::Msg(id), BlockKind::Message { indent: indent as usize, highlighted, folded_info: info })
    } else {
        (TreeBlockId::Msg(id), BlockKind::Placeholder { indent: indent as usize, highlighted, folded_info: info })
    }
}

/// The block after all replies to message `id`: the editor or the reply
/// being sent where the cursor replies to `id`, else nothing.
pub open spec fn after_block(id: u64, indent: nat, cursor: Cursor<u64>) -> (TreeBlockId<u64>, BlockKind) {
    match cursor {
        Cursor::Editor { parent: Some(p), .. } if p == id => (
            TreeBlockId::After(id),
            BlockKind::Editor { indent: (indent + 1) as usize },
        ),
        Cursor::Pseudo { parent: Some(p), .. } if p == id => (
            TreeBlockId::After(id),
            BlockKind::Pseudo { indent: (indent + 1) as usize },
        ),
        _ => (TreeBlockId::After(id), BlockKind::Empty),
    }
}

/// The blocks of the messages `s` (replies to `bound`, so each id exceeds
/// it) at `indent`: each message, its replies one level deeper unless it is
/// folded, and the block after them.
pub open spec fn forest_layout<M: Msg>(
    tree: Tree<M>,
    bound: u64,
    s: Seq<u64>,
    indent: nat,
    folded: Set<u64>,
    cursor: Cursor<u64>,
    focused: bool,
) -> Seq<(TreeBlockId<u64>, BlockKind)>
    decreases u64::MAX - bound, s.len(),
{
    if s.len() == 0 {
        seq![]
    } else if s.last() <= bound {
        seq![]
    } else {
        let c = s.last();
        let below = if folded.contains(c) {
            seq![]
        } else {
            forest_layout(
                tree,
                c,
                children_or_empty(tree.spec_children(), c),
                indent + 1,
                folded,
                cursor,
                focused,
            )
        };
        forest_layout(tree, bound, s.drop_last(), indent, folded, cursor, focused) + seq![
            msg_block(tree, c, indent, folded, cursor, focused),
        ] + below + seq![after_block(c, indent, cursor)]
    }
}

/// The blocks of message `id` at `indent`, its replies (unless it is
/// folded) and the block after them.
pub open spec fn subtree_layout<M: Msg>(
    tree: Tree<M>,
    id: u64,
    indent: nat,
    folded: Set<u64>,
    cursor: Cursor<u64>,
    focused: bool,
) -> Seq<(TreeBlockId<u64>, BlockKind)> {
    let below = if folded.contains(id) {
        seq![]
    } else {
        forest_layout(tree, id, children_or_empty(tree.spec_children(), id), indent + 1, folded, cursor, focused)
    };
    seq![msg_block(tree, id, indent, folded, cursor, focused)] + below + seq![after_block(id, indent, cursor)]
}

/// How many of the blocks show a message (or stand in for a missing one).
pub open spec fn message_blocks(s: Seq<(TreeBlockId<u64>, BlockKind)>) -> nat
    decreases s.len(),
{
    if s.len() == 0 {
        0
    } else {
        message_blocks(s.drop_last()) + if s.last().1 is Message || s.last().1 is Placeholder {
            1nat
        } else {
            0nat
        }
    }
}

proof fn lemma_message_blocks_concat(a: Seq<(TreeBlockId<u64>, BlockKind)>, b: Seq<(TreeBlockId<u64>, BlockKind)>)
    ensures
        message_blocks(a + b) == message_blocks(a) + message_blocks(b),
    decreases b.len(),
{
    if b.len() == 0 {
        assert(a + b =~= a);
    } else {
        lemma_message_blocks_concat(a, b.drop_last());
        assert((a + b).drop_last() =~= a + b.drop_last());
    }
}

/// Laid out with nothing folded, the messages `s` below `bound` take one
/// message block for each of them and each of their descendants.
pub proof fn lemma_unfolded_message_blocks<M: Msg>(
    tree: Tree<M>,
    bound: u64,
    s: Seq<u64>,
    indent: nat,
    cursor: Cursor<u64>,
    focused: bool,
)
    ensures
        message_blocks(forest_layout(tree, bound, s, indent, Set::empty(), cursor, focused)) == forest_size(
            tree.spec_children(),
            bound,
            s,
        ),
    decreases u64::MAX - bound, s.len(),
{
    if s.len() > 0 && s.last() > bound {
        let c = s.last();
        let ch = tree.spec_children();
        let front = forest_layout(tree, bound, s.drop_last(), indent, Set::empty(), cursor, focused);
        let below = forest_layout(tree, c, children_or_empty(ch, c), indent + 1, Set::empty(), cursor, focused);
        let mb = msg_block(tree, c, indent, Set::empty(), cursor, focused);
        let ab = after_block(c, indent, cursor);
        lemma_unfolded_message_blocks(tree, bound, s.drop_last(), indent, cursor, focused);
        lemma_unfolded_message_blocks(tree, c, children_or_empty(ch, c), indent + 1, cursor, focused);
        lemma_message_blocks_concat(front, seq![mb]);
        lemma_message_blocks_concat(front + seq![mb], below);
        lemma_message_blocks_concat(front + seq![mb] + below, seq![ab]);
        assert(seq![mb].drop_last() =~= Seq::<(TreeBlockId<u64>, BlockKind)>::empty());
        assert(seq![ab].drop_last() =~= Seq::<(TreeBlockId<u64>, BlockKind)>::empty());
        assert(message_blocks(Seq::<(TreeBlockId<u64>, BlockKind)>::empty()) == 0);
        assert(seq![mb].last() == mb);
        assert(mb.1 is Message || mb.1 is Placeholder);
        assert(seq![ab].last() == ab);
        assert(message_blocks(seq![mb]) == 1);
        assert(message_blocks(seq![ab]) == 0);
    }
}

/// A folded message with replies shows how many messages folding it hides:
/// as many as its replies and their replies take message blocks when
/// nothing is folded; a folded message without replies shows nothing.
pub proof fn lemma_folded_info_counts_hidden<M: Msg>(
    tree: Tree<M>,
    id: u64,
    indent: nat,
    folded: Set<u64>,
    cursor: Cursor<u64>,
    focused: bool,
)
    requires
        folded.contains(id),
    ensures
        ({
            let hidden = message_blocks(
                forest_layout(
                    tree,
                    id,
                    children_or_empty(tree.spec_children(), id),
                    indent + 1,
                    Set::empty(),
                    cursor,
                    focused,
                ),
            );
            spec_folded_info(tree, id, folded) == if hidden > 0 {
                Some(hidden as usize)
            } else {
                None
            }
        }),
{
    lemma_unfolded_message_blocks(tree, id, children_or_empty(tree.spec_children(), id), indent + 1, cursor, focused);
}

/// The block at the very bottom of the chat: the editor or the message being
/// sent where the cursor starts a new thread, else nothing.
pub open spec fn bottom_block(cursor: Cursor<u64>) -> (TreeBlockId<u64>, BlockKind) {
    match cursor {
        Cursor::Editor { parent: None, .. } => (TreeBlockId::Bottom, BlockKind::Editor { indent: 0 }),
        Cursor::Pseudo { parent: None, .. } => (TreeBlockId::Bottom, BlockKind::Pseudo { indent: 0 }),
        _ => (TreeBlockId::Bottom, BlockKind::Empty),
    }
}

/// The block at the very bottom of the chat.
pub fn layout_bottom(cursor: &Cursor<u64>) -> (r: (TreeBlockId<u64>, BlockKind))
    ensures
        r == bottom_block(*cursor),
{
    match cursor {
        Cursor::Editor { parent: None, .. } => (TreeBlockId::Bottom, BlockKind::Editor { indent: 0 }),
        Cursor::Pseudo { parent: None, .. } => (TreeBlockId::Bottom, BlockKind::Pseudo { indent: 0 }),
        _ => (TreeBlockId::Bottom, BlockKind::Empty),
    }
}

/// Appends the blocks of message `id` at `indent`, its replies and the
/// block after them to `out`.
fn layout_subtree<M: Msg>(
    tree: &Tree<M>,
    indent: usize,
    id: u64,
    folded: &HashSet<u64>,
    cursor: &Cursor<u64>,
    focused: bool,
    out: &mut Vec<(TreeBlockId<u64>, BlockKind)>,
)
    requires
        parents_precede(tree.spec_msgs()),
        sizes_fit(*tree),
        tree.spec_root() <= id,
        indent == depth(*tree, id),
        id == tree.spec_root() || is_tree_node(tree.spec_msgs(), id),
    ensures
        final(out)@ == old(out)@ + subtree_layout(*tree, id, indent as nat, folded@, *cursor, focused),
    decreases u64::MAX - id,
{
    proof {
        use_type_invariant(tree);
        tree.lemma_children_follow(id);
    }
    let is_folded = folded.contains(&id);
    let folded_info = if is_folded {
        let size = tree.subtree_size(&id);
        if size > 0 {
            Some(size)
        } else {
            None
        }
    } else {
        None
    };
    let highlighted = match cursor {
        Cursor::Msg(c) => *c == id && focused,
        _ => false,
    };
    if tree.msg(&id).is_some() {
        out.push((TreeBlockId::Msg(id), BlockKind::Message { indent, highlighted, folded_info }));
    } else {
        out.push((TreeBlockId::Msg(id), BlockKind::Placeholder { indent, highlighted, folded_info }));
    }
    let ghost start = out@;
    let ghost ch = tree.spec_children();
    let ghost all = children_or_empty(ch, id);
    if !is_folded {
        let children: &[u64] = match tree.children(&id) {
            Some(c) => c,
            None => &[],
        };
        assert(children@ =~= all);
        assert(all.take(0) =~= Seq::<u64>::empty());
        let mut i: usize = 0;
        while i < children.len()
            invariant
                children@ == all,
                i <= all.len(),
                forall|k: int| 0 <= k < all.len() ==> id < #[trigger] all[k],
                parents_precede(tree.spec_msgs()),
                sizes_fit(*tree),
                tree.spec_root() <= id,
                indent == depth(*tree, id),
                id == tree.spec_root() || is_tree_node(tree.spec_msgs(), id),
                tree.wf(),
                ch == tree.spec_children(),
                all == children_or_empty(ch, id),
                out@ == start + forest_layout(
                    *tree,
                    id,
                    all.take(i as int),
                    indent as nat + 1,
                    folded@,
                    *cursor,
                    focused,
                ),
            decreases all.len() - i,
        {
            let child = children[i];
            proof {
                let t = all.take(i + 1);
                assert(t.drop_last() =~= all.take(i as int));
                assert(t.last() == child);
                assert(ch.contains_key(id));
                assert(ch[id][i as int] == child);
                assert(ch[id].contains(child));
                assert(is_child_of(tree.spec_msgs(), child, id));
                assert(is_tree_node(tree.spec_msgs(), child));
                assert(tree.spec_parent_of(child) == Some(id));
                assert(depth(*tree, child) == 1 + depth(*tree, id));
            }
            layout_subtree(tree, indent + 1, child, folded, cursor, focused, out);
            i += 1;
        }
        assert(all.take(all.len() as int) =~= all);
    }
    let after = match cursor {
        Cursor::Editor { parent: Some(p), .. } => if *p == id {
            BlockKind::Editor { indent: indent + 1 }
        } else {
            BlockKind::Empty
        },
        Cursor::Pseudo { parent: Some(p), .. } => if *p == id {
            BlockKind::Pseudo { indent: indent + 1 }
        } else {
            BlockKind::Empty
        },
        _ => BlockKind::Empty,
    };
    out.push((TreeBlockId::After(id), after));
    assert(out@ =~= old(out)@ + subtree_layout(*tree, id, indent as nat, folded@, *cursor, focused));
}

/// The blocks of a whole tree, from its root down: each message, its replies
/// one level deeper unless it is folded, and the block after them.
pub fn layout_tree<M: Msg>(tree: &Tree<M>, folded: &HashSet<u64>, cursor: &Cursor<u64>, focused: bool) -> (r: Vec<(TreeBlockId<u64>, BlockKind)>)
    requires
        parents_precede(tree.spec_msgs()),
        sizes_fit(*tree),
    ensures
        r@ == subtree_layout(*tree, tree.spec_root(), 0, folded@, *cursor, focused),
{
    let mut out: Vec<(TreeBlockId<u64>, BlockKind)> = Vec::new();
    let root = *tree.root();
    layout_subtree(tree, 0, root, folded, cursor, focused, &mut out);
    assert(out@ =~= subtree_layout(*tree, root, 0, folded@, *cursor, focused));
    out
}

} // verus!
