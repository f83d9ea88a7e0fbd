//! The terminal front end of a small coding agent: command parsing, the input
//! line, scrolling, transcript layout, the prompt area and its key handling,
//! and the parsing of web search results.
pub mod text;
pub mod agent;
pub mod tui;
pub mod web_search;
