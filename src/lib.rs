//! A two-list terminal task editor: word wrapping, list viewports with
//! scrolling, and a modal key-driven editing session.
pub mod text;
pub mod wrap;
pub mod list;
pub mod storage;
pub mod session;
