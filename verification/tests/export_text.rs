use cove::export_text::{export_tree, indent_string, lines_of, msg_lines, placeholder_line};
use cove::small_message::SmallMessage;
use cove::store::Tree;

fn msg(id: u64, parent: Option<u64>, time: i64, nick: &str, content: &str) -> SmallMessage {
    SmallMessage {
        id,
        parent,
        time,
        user_id: String::from("agent:test"),
        nick: nick.to_string(),
        content: content.to_string(),
        seen: false,
    }
}

const BLANK: &str = "                   ";

#[test]
fn lines_of_splits_like_str_lines() {
    let cases = ["", "a", "a\nb", "a\r\nb\n", "a\n\n", "a\r", "\r\n", "\n", "x\ry\nz"];
    for case in cases {
        let ours = lines_of(case);
        let std: Vec<String> = case.lines().map(|l| l.to_string()).collect();
        assert_eq!(ours, std, "case {:?}", case);
    }
}

#[test]
fn indent_and_placeholder() {
    assert_eq!(indent_string(0), "");
    assert_eq!(indent_string(2), "| | ");
    assert_eq!(placeholder_line("| "), format!("{BLANK} | [...]"));
}

#[test]
fn msg_lines_first_line_has_time_and_nick() {
    let m = msg(1, None, 86_400, "alice", "hi\nthere");
    let lines = msg_lines("| ", &m);
    assert_eq!(
        lines,
        vec![
            "1970-01-02 00:00:00 | [alice] hi".to_string(),
            format!("{BLANK} | | {} there", "     "),
        ]
    );
}

#[test]
fn msg_lines_pads_by_display_width() {
    let m = msg(1, None, 0, "日本", "a\nb");
    let lines = msg_lines("", &m);
    assert_eq!(lines[0], "1970-01-01 00:00:00 [日本] a");
    assert_eq!(lines[1], format!("{BLANK} |      b"));
}

#[test]
fn msg_lines_of_empty_content() {
    let m = msg(1, None, 0, "bob", "");
    assert!(msg_lines("", &m).is_empty());
}

#[test]
fn export_tree_indents_replies_and_marks_missing() {
    // The root 2 is missing; 3 and 5 reply to it, 4 replies to 3.
    let msgs = vec![
        msg(5, Some(2), 180, "e", "later"),
        msg(3, Some(2), 60, "c", "first"),
        msg(4, Some(3), 120, "d", "deep\nline"),
    ];
    let tree = Tree::new(2, msgs);
    assert_eq!(tree.subtree_size(&2), 3);
    assert_eq!(tree.subtree_size(&3), 1);
    assert_eq!(tree.subtree_size(&4), 0);
    let lines = export_tree(&tree);
    assert_eq!(
        lines,
        vec![
            format!("{BLANK} [...]"),
            "1970-01-01 00:01:00 | [c] first".to_string(),
            "1970-01-01 00:02:00 | | [d] deep".to_string(),
            format!("{BLANK} | | | {} line", " "),
            "1970-01-01 00:03:00 | [e] later".to_string(),
        ]
    );
}
