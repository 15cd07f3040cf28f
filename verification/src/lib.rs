//! A terminal-resident, multi-buffer line-editing and rendering engine for
//! chat-like interactive programs.
//!
//! The engine owns one editable input line and a scrolling message backlog per
//! buffer ("tab"), lets the host switch between buffers, and computes the full
//! screen content for a fixed viewport.  The terminal itself (key polling,
//! attribute drawing, cursor placement) is the host's business: the host feeds
//! key events in as plain values and paints the rows that [`window::Window`]
//! hands back.

pub mod buffer;
pub mod keys;
pub mod laws;
pub mod render;
pub mod text;
pub mod window;
