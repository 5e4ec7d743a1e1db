//! Verified core of the Zeshicast launcher: Markdown to Pango markup and the
//! proof that its tags are properly nested, navigation history, key dispatch,
//! list selection, the action panel and the root list, preference parsing,
//! clipboard filtering, the texts of chips, cards and rows, the network
//! view's actions, script runs, the notification server, the on-screen
//! display timers, argument forms, the font browser, the emoji picker, how
//! the window is brought up, where an activated row goes and what the
//! periodic refreshes redraw.

pub mod text;
pub mod markdown;
pub mod navigation;
pub mod keys;
pub mod preferences;
pub mod clipboard;
pub mod numbers;
pub mod style;
pub mod selection;
pub mod icons;
pub mod action_panel;
pub mod launcher;
pub mod markup;
pub mod markdown_laws;
pub mod labels;
pub mod root_list;
pub mod network;
pub mod scripts;
pub mod notify_server;
pub mod osd;
pub mod forms;
pub mod fonts;
pub mod emoji;
pub mod window;
pub mod activation;
