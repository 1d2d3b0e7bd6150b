//! A renderer that fills the terminal with a dashboard: the tree of tasks
//! with their progress, the messages and free-form information.
pub mod draw;
pub mod engine;
pub mod layout;

pub use layout::Rect;
pub use draw::Line;
pub use engine::{Event, Interrupt, Options};
