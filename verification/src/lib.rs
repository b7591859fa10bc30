//! A time-windowed buffer: timestamped values kept in strictly ascending time
//! order, where every insertion drops the entries that have grown older than a
//! configurable limit relative to the newest timestamp.

pub mod buffer;
pub mod builder;
pub mod time;
pub mod window;

pub use buffer::{TimeVec, TimeVecItem};
pub use builder::TimeVecBuilder;
