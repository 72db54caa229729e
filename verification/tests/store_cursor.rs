use std::collections::HashSet;
use std::convert::Infallible;

use cove::cursor::Cursor;
use cove::store::{Msg, MsgStore, Path, Tree};

#[derive(Debug, Clone)]
struct TestMsg {
    id: u64,
    parent: Option<u64>,
    seen: bool,
}

impl Msg for TestMsg {
    fn id(&self) -> u64 {
        self.id
    }

    fn parent(&self) -> Option<u64> {
        self.parent
    }

    fn seen(&self) -> bool {
        self.seen
    }

    fn last_possible_id() -> u64 {
        u64::MAX
    }
}

/// Messages with their parents; roots are the messages without one.
struct TestStore {
    msgs: Vec<TestMsg>,
}

impl TestStore {
    fn new(msgs: &[(u64, Option<u64>, bool)]) -> Self {
        Self {
            msgs: msgs
                .iter()
                .map(|&(id, parent, seen)| TestMsg { id, parent, seen })
                .collect(),
        }
    }

    fn get(&self, id: u64) -> Option<&TestMsg> {
        self.msgs.iter().find(|m| m.id == id)
    }

    fn root(&self, id: u64) -> u64 {
        let mut id = id;
        while let Some(p) = self.get(id).and_then(|m| m.parent) {
            id = p;
        }
        id
    }

    fn roots(&self) -> Vec<u64> {
        let mut roots: Vec<u64> = self.msgs.iter().filter(|m| m.parent.is_none()).map(|m| m.id).collect();
        roots.sort();
        roots
    }

    fn ids(&self, unseen: bool) -> Vec<u64> {
        let mut ids: Vec<u64> = self.msgs.iter().filter(|m| !unseen || !m.seen).map(|m| m.id).collect();
        ids.sort();
        ids
    }
}

impl MsgStore<TestMsg> for TestStore {
    type Error = Infallible;

    fn path(&self, id: &u64) -> Result<Path<u64>, Infallible> {
        let mut segments = vec![*id];
        let mut cur = *id;
        while let Some(p) = self.get(cur).and_then(|m| m.parent) {
            segments.insert(0, p);
            cur = p;
        }
        Ok(Path::new(segments))
    }

    fn msg(&self, id: &u64) -> Result<Option<TestMsg>, Infallible> {
        Ok(self.get(*id).cloned())
    }

    fn tree(&self, root_id: &u64) -> Result<Tree<TestMsg>, Infallible> {
        let msgs = self.msgs.iter().filter(|m| self.root(m.id) == *root_id).cloned().collect();
        Ok(Tree::new(*root_id, msgs))
    }

    fn first_root_id(&self) -> Result<Option<u64>, Infallible> {
        Ok(self.roots().first().copied())
    }

    fn last_root_id(&self) -> Result<Option<u64>, Infallible> {
        Ok(self.roots().last().copied())
    }

    fn prev_root_id(&self, root_id: &u64) -> Result<Option<u64>, Infallible> {
        Ok(self.roots().into_iter().filter(|r| r < root_id).last())
    }

    fn next_root_id(&self, root_id: &u64) -> Result<Option<u64>, Infallible> {
        Ok(self.roots().into_iter().find(|r| r > root_id))
    }

    fn oldest_msg_id(&self) -> Result<Option<u64>, Infallible> {
        Ok(self.ids(false).first().copied())
    }

    fn newest_msg_id(&self) -> Result<Option<u64>, Infallible> {
        Ok(self.ids(false).last().copied())
    }

    fn older_msg_id(&self, id: &u64) -> Result<Option<u64>, Infallible> {
        Ok(self.ids(false).into_iter().filter(|i| i < id).last())
    }

    fn newer_msg_id(&self, id: &u64) -> Result<Option<u64>, Infallible> {
        Ok(self.ids(false).into_iter().find(|i| i > id))
    }

    fn oldest_unseen_msg_id(&self) -> Result<Option<u64>, Infallible> {
        Ok(self.ids(true).first().copied())
    }

    fn newest_unseen_msg_id(&self) -> Result<Option<u64>, Infallible> {
        Ok(self.ids(true).last().copied())
    }

    fn older_unseen_msg_id(&self, id: &u64) -> Result<Option<u64>, Infallible> {
        Ok(self.ids(true).into_iter().filter(|i| i < id).last())
    }

    fn newer_unseen_msg_id(&self, id: &u64) -> Result<Option<u64>, Infallible> {
        Ok(self.ids(true).into_iter().find(|i| i > id))
    }

    fn unseen_msgs_count(&self) -> Result<usize, Infallible> {
        Ok(self.ids(true).len())
    }

    fn set_seen(&mut self, id: &u64, seen: bool) -> Result<(), Infallible> {
        for m in &mut self.msgs {
            if m.id == *id {
                m.seen = seen;
            }
        }
        Ok(())
    }

    fn set_older_seen(&mut self, id: &u64, seen: bool) -> Result<(), Infallible> {
        for m in &mut self.msgs {
            if m.id <= *id {
                m.seen = seen;
            }
        }
        Ok(())
    }
}

/// Two trees:
/// 1
/// ├─ 2
/// └─ 3
///    └─ 4
/// 5
/// └─ 6
fn forest() -> TestStore {
    TestStore::new(&[
        (1, None, true),
        (2, Some(1), true),
        (3, Some(1), false),
        (4, Some(3), true),
        (5, None, false),
        (6, Some(5), true),
    ])
}

#[test]
fn down_through_all_messages() {
    let store = forest();
    let folded = HashSet::new();
    let mut cursor = Cursor::Msg(1);
    let mut visited = vec![];
    while let Cursor::Msg(id) = cursor {
        visited.push(id);
        cursor.move_down_in_tree(&store, &folded).unwrap();
    }
    assert_eq!(visited, vec![1, 2, 3, 4, 5, 6]);
    assert_eq!(cursor, Cursor::Bottom);
}

#[test]
fn up_through_all_messages() {
    let store = forest();
    let folded = HashSet::new();
    let mut cursor = Cursor::Bottom;
    let mut visited = vec![];
    for _ in 0..6 {
        cursor.move_up_in_tree(&store, &folded).unwrap();
        if let Cursor::Msg(id) = cursor {
            visited.push(id);
        }
    }
    assert_eq!(visited, vec![6, 5, 4, 3, 2, 1]);
    cursor.move_up_in_tree(&store, &folded).unwrap();
    assert_eq!(cursor, Cursor::Msg(1));
}

#[test]
fn folded_replies_are_skipped() {
    let store = forest();
    let folded: HashSet<u64> = [3].into_iter().collect();
    let mut cursor = Cursor::Msg(5);
    cursor.move_up_in_tree(&store, &folded).unwrap();
    assert_eq!(cursor, Cursor::Msg(3));
    cursor.move_down_in_tree(&store, &folded).unwrap();
    assert_eq!(cursor, Cursor::Msg(5));
}

#[test]
fn siblings_parents_and_roots() {
    let store = forest();
    let mut cursor = Cursor::Msg(2);
    cursor.move_to_next_sibling(&store).unwrap();
    assert_eq!(cursor, Cursor::Msg(3));
    cursor.move_to_next_sibling(&store).unwrap();
    assert_eq!(cursor, Cursor::Msg(3));
    cursor.move_to_prev_sibling(&store).unwrap();
    assert_eq!(cursor, Cursor::Msg(2));

    let mut cursor = Cursor::Msg(1);
    cursor.move_to_next_sibling(&store).unwrap();
    assert_eq!(cursor, Cursor::Msg(5));
    cursor.move_to_next_sibling(&store).unwrap();
    assert_eq!(cursor, Cursor::Bottom);
    cursor.move_to_prev_sibling(&store).unwrap();
    assert_eq!(cursor, Cursor::Msg(5));

    let mut cursor = Cursor::Msg(4);
    cursor.move_to_parent(&store).unwrap();
    assert_eq!(cursor, Cursor::Msg(3));
    let mut cursor = Cursor::Msg(4);
    cursor.move_to_root(&store).unwrap();
    assert_eq!(cursor, Cursor::Msg(1));
    cursor.move_to_parent(&store).unwrap();
    assert_eq!(cursor, Cursor::Msg(1));

    let mut cursor = Cursor::Pseudo { coming_from: None, parent: Some(1) };
    cursor.move_to_prev_sibling(&store).unwrap();
    assert_eq!(cursor, Cursor::Msg(3));
    let mut cursor = Cursor::Pseudo { coming_from: None, parent: Some(3) };
    cursor.move_down_in_tree(&store, &HashSet::new()).unwrap();
    assert_eq!(cursor, Cursor::Msg(5));
}

#[test]
fn top_bottom_older_newer() {
    let store = forest();
    let mut cursor = Cursor::Bottom;
    cursor.move_to_top(&store).unwrap();
    assert_eq!(cursor, Cursor::Msg(1));
    cursor.move_to_newer_msg(&store).unwrap();
    assert_eq!(cursor, Cursor::Msg(2));
    let mut cursor = Cursor::Msg(6);
    cursor.move_to_older_unseen_msg(&store).unwrap();
    assert_eq!(cursor, Cursor::Msg(5));
    cursor.move_to_older_unseen_msg(&store).unwrap();
    assert_eq!(cursor, Cursor::Msg(3));
    cursor.move_to_newer_unseen_msg(&store).unwrap();
    assert_eq!(cursor, Cursor::Msg(5));
    cursor.move_to_newer_unseen_msg(&store).unwrap();
    assert_eq!(cursor, Cursor::Bottom);
    cursor.move_to_older_unseen_msg(&store).unwrap();
    assert_eq!(cursor, Cursor::Msg(5));
}

#[test]
fn reply_parents() {
    let store = forest();
    // 2 has a younger sibling: reply directly.
    assert_eq!(Cursor::Msg(2).parent_for_normal_tree_reply(&store).unwrap(), Some(Some(2)));
    assert_eq!(Cursor::Msg(2).parent_for_alternate_tree_reply(&store).unwrap(), Some(Some(1)));
    // 4 is the last reply: reply to its parent.
    assert_eq!(Cursor::Msg(4).parent_for_normal_tree_reply(&store).unwrap(), Some(Some(3)));
    assert_eq!(Cursor::Msg(4).parent_for_alternate_tree_reply(&store).unwrap(), Some(Some(4)));
    // Roots reply to themselves.
    assert_eq!(Cursor::Msg(5).parent_for_normal_tree_reply(&store).unwrap(), Some(Some(5)));
    assert_eq!(Cursor::Msg(5).parent_for_alternate_tree_reply(&store).unwrap(), Some(Some(5)));
}
