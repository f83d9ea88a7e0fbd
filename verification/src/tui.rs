pub mod commands;
pub mod input;
pub mod scroll;
pub mod surface;
pub mod theme;
pub mod entry;
pub mod events;
pub mod transcript;
pub mod view;
pub mod app;
pub mod key;
pub mod keys;
pub mod line;
pub mod ansi;
pub mod frame;
pub mod prompt_input;
pub mod modal;
pub mod palette;
pub mod permission;
pub mod picker;
pub mod state;
pub mod status;
pub mod prompt;
pub mod print;
