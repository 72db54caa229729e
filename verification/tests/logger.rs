use cove::logger::{enabled, starts_with, Level, Logger};
use cove::store::MsgStore;

#[test]
fn prefixes() {
    assert!(starts_with("cove::ui", "cove"));
    assert!(starts_with("cove", "cove"));
    assert!(starts_with("anything", ""));
    assert!(!starts_with("cov", "cove"));
    assert!(!starts_with("tokio", "cove"));
}

#[test]
fn enabled_levels_and_targets() {
    assert!(enabled(Level::Error, "tokio"));
    assert!(enabled(Level::Warn, "tokio"));
    assert!(enabled(Level::Info, "tokio"));
    assert!(!enabled(Level::Debug, "tokio"));
    assert!(!enabled(Level::Trace, "hyper::client"));
    assert!(enabled(Level::Debug, "cove::ui::rooms"));
    assert!(enabled(Level::Trace, "euphoxide::bot::instance"));
    assert!(enabled(Level::Debug, "euphoxide::live"));
    assert!(!enabled(Level::Debug, "euphoxide::api"));
}

#[test]
fn logging_appends_with_ids() {
    let mut log = Logger::new();
    assert!(log.log(Level::Info, "cove", "hello", 7));
    assert!(!log.log(Level::Debug, "tokio", "ignored", 8));
    assert!(log.log(Level::Error, "cove::vault", "broken", 9));
    assert_eq!(log.len(), 2);
    let first = log.msg(&0).unwrap().unwrap();
    assert_eq!(first.id, 0);
    assert_eq!(first.content, "<cove> hello");
    assert_eq!(first.time, 7);
    let second = log.msg(&1).unwrap().unwrap();
    assert_eq!(second.id, 1);
    assert_eq!(second.level, Level::Error);
    assert_eq!(second.content, "<cove::vault> broken");
    assert!(log.msg(&2).unwrap().is_none());
    assert_eq!(log.errors(), vec!["<cove::vault> broken".to_string()]);
}

#[test]
fn level_names() {
    assert_eq!(Level::Error.name(), "ERROR");
    assert_eq!(Level::Warn.name(), "WARN");
    assert_eq!(Level::Trace.name(), "TRACE");
}

#[test]
fn log_as_store() {
    let mut log = Logger::new();
    assert_eq!(log.first_root_id().unwrap(), None);
    assert_eq!(log.last_root_id().unwrap(), None);
    for i in 0..3 {
        assert!(log.log(Level::Warn, "cove", &format!("m{i}"), i));
    }
    assert_eq!(log.first_root_id().unwrap(), Some(0));
    assert_eq!(log.last_root_id().unwrap(), Some(2));
    assert_eq!(log.prev_root_id(&0).unwrap(), None);
    assert_eq!(log.prev_root_id(&2).unwrap(), Some(1));
    assert_eq!(log.next_root_id(&1).unwrap(), Some(2));
    assert_eq!(log.next_root_id(&2).unwrap(), None);
    assert_eq!(log.older_msg_id(&1).unwrap(), Some(0));
    assert_eq!(log.newer_msg_id(&0).unwrap(), Some(1));
    assert_eq!(log.newest_msg_id().unwrap(), Some(2));
    assert_eq!(log.newest_unseen_msg_id().unwrap(), None);
    assert_eq!(log.unseen_msgs_count().unwrap(), 0);
    let tree = log.tree(&1).unwrap();
    assert_eq!(*tree.root(), 1);
    assert_eq!(tree.len(), 1);
    assert_eq!(tree.parent(&1), None);
    assert_eq!(tree.children(&1).unwrap().len(), 0);
    assert_eq!(log.tree(&9).unwrap().len(), 0);
    let path = log.path(&2).unwrap();
    assert_eq!(*path.first(), 2);
    assert_eq!(path.parent_segments().len(), 0);
}
