use cove::list::{List, ListBuilder, ListState};

fn letters() -> Vec<&'static str> {
    vec!["a", "b", "c", "d", "e"]
}

#[test]
fn list_draws_from_the_offset() {
    let mut state: ListState<u32> = ListState::new();
    let mut builder = ListBuilder::new();
    for i in 0..5u32 {
        builder.add_sel(i);
    }
    let selected = builder.build(&mut state);
    assert_eq!(selected, vec![true, false, false, false, false]);
    let list = List::new(letters());
    assert_eq!(list.height(), 5);
    assert_eq!(list.draw(&mut state, 3), vec!["a", "b", "c"]);
    state.scroll_down(1);
    assert_eq!(List::new(letters()).draw(&mut state, 3), vec!["b", "c", "d"]);
    state.scroll_down(10);
    assert_eq!(List::new(letters()).draw(&mut state, 3), vec!["c", "d", "e"]);
    assert_eq!(List::new(letters()).draw(&mut state, 10), vec!["c", "d", "e"]);
}

#[test]
fn cursor_moves_over_unselectable_rows() {
    let mut state: ListState<u32> = ListState::new();
    let mut builder = ListBuilder::new();
    builder.add_unsel();
    builder.add_sel(7);
    builder.add_unsel();
    builder.add_sel(9);
    assert_eq!(builder.build(&mut state), vec![false, true, false, false]);
    List::new(vec![(); 4]).draw(&mut state, 4);
    state.move_cursor_down();
    assert_eq!(state.selected(), Some(&9));
    state.move_cursor_down();
    assert_eq!(state.selected(), Some(&9));
    state.move_cursor_up();
    assert_eq!(state.selected(), Some(&7));
    state.move_cursor_to_bottom();
    assert_eq!(state.selected(), Some(&9));
    state.move_cursor_to_top();
    assert_eq!(state.selected(), Some(&7));
}
