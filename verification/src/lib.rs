//! A dashboard for the progress of concurrent work: a tree of tasks keyed by
//! their place in the hierarchy, a bounded log of messages, a throughput
//! estimate per task, and the layout decisions of two renderers.
//!
//! Everything in here works on values that its caller owns. Sharing a tree
//! between threads, reading the clock of a frame and putting the frame on a
//! terminal is up to the caller.
pub mod color;
pub mod input;
pub mod key;
pub mod line;
pub mod log;
pub mod messages;
pub mod progress;
pub mod style;
pub mod text;
pub mod throughput;
pub mod time;
pub mod tree;
pub mod tui;
pub mod unit;

pub use tree::Options as TreeOptions;
pub use tree::Root as Tree;
pub use unit::Unit;
