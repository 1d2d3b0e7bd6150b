//! A renderer that prints messages and one line per task, and draws over
//! the lines of the frame before.
pub mod draw;
pub mod engine;

pub use engine::{Event, JoinHandle, Options};
