//! PlayStation 1 asset format codecs.
//!
//! Each codec consumes a byte slice and produces a validated, typed
//! in-memory representation or a typed decode failure.

pub mod dat;
pub mod lzss;
pub mod tim;
pub mod tmd;
pub mod vab;
pub mod vag;
pub mod xa;
