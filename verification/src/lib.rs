//! A terminal departure board: feed normalisation, board formatting and
//! flicker-free frame diffing, with machine-checked contracts.

pub mod board;
pub mod feed;
pub mod frame;
pub mod json;
pub mod model;
pub mod refresh;
pub mod request;
pub mod sort;
pub mod text;
pub mod timestamp;
