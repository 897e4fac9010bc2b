//! What the panes of the browser show, as styled text.

pub mod conversation_pane;
pub mod highlight;
pub mod list_pane;
pub mod status;
pub mod style;
pub mod timeline;

pub use crate::wrap::{cursor_x, truncate, wrap_text};
