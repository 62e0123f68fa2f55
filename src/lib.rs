//! Buffer rings shared with an asynchronous I/O executor: cursor arithmetic,
//! refill and buffer rings, a buffer pool, completion decoding and the
//! completion-driven receive controller.

pub mod area;
pub mod buf_ring;
pub mod completion;
pub mod controller;
pub mod cursor;
pub mod error;
pub mod geometry;
pub mod pool;
pub mod send;
pub mod tcp;
pub mod zcrx;
