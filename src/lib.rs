//! mini_log: a small event recorder.
//!
//! `no_std_logger` holds the fixed-capacity recorder: a pool of record slots
//! that is sized once, hands out the lowest free slot first, and replays the
//! occupied slots in index order through caller-supplied callbacks.
//! `std_logger` holds the growable recorder built on `Vec` and `String`.
pub mod no_std_logger;
pub mod std_logger;
