//! The editing core of SiloCut, a small non-linear video editor and screen recorder.
//!
//! Times are whole nanoseconds (`i64`), on-screen coordinates are thousandths of a
//! point (`i64`), and pixel and bitstream buffers are plain bytes.

pub mod audio;
pub mod codec;
pub mod drag;
pub mod editor;
pub mod export;
pub mod h264;
pub mod history;
pub mod invariants;
pub mod laws;
pub mod layout;
pub mod media;
pub mod pixels;
pub mod preview;
pub mod project;
pub mod recorder;
pub mod resample;
pub mod search;
pub mod seek;
pub mod status;
pub mod text;
pub mod thumbnail;
pub mod time;
