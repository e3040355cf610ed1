//! The terminal interface: what each key does to each screen, and the text
//! that each screen shows.
pub mod approval_queue;
pub mod approve;
pub mod browse;
pub mod keymap;
pub mod request;
pub mod styled;
pub mod widgets;
