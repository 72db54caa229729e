# cove

The logic of cove, a terminal client for the threaded chat platform
[euphoria](https://euphoria.leet.nu/), written in Verus and proved against
its contracts.

- `src/` is the library: message trees and stores, cursor movement through
  trees, the chat's tree view and its reactions to keys, the room list and
  its popups, lists with a cursor, text boxes, highlighting of mentions,
  rooms and emoji, link extraction, the stacking and scrolling of blocks of
  lines, the layout of trees as blocks and the rendering that fills the
  screen around the cursor, the text export format, and the log.
- `tests/` runs the library on concrete inputs.
- `app/` is the command line program around it: argument parsing, the
  terminal, and the `log` crate's facade.
