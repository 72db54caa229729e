pub mod list;
pub mod text;
pub mod emoji;
pub mod highlight;
pub mod store;
pub mod cursor;
pub mod blocks;
pub mod renderer;
pub mod util;
pub mod small_message;
pub mod export;
pub mod export_text;
pub mod settings;
pub mod textline;
pub mod overlays;
pub mod pane;
pub mod layout;
pub mod room_ui;
pub mod rooms;
pub mod popup;
pub mod chat;
pub mod logger;
pub mod keys;
pub mod tree_view;
pub mod tree_layout;
pub mod euph_room;
pub mod account;
pub mod sort;
pub mod links;
pub mod ui_main;
pub mod euph_ui;
pub mod inspect;
pub mod nick_list;
pub mod tree_renderer;
