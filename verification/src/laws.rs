//! What the library promises of its operations, each promise on the fields of what goes in
//! and of what comes out.

pub mod decoding;
pub mod dragging;
pub mod editing;
pub mod exporting;
pub mod files;
pub mod limits;
pub mod pictures;
pub mod playing;
pub mod pressing;
pub mod recording;
pub mod scale;
pub mod storing;
pub mod trimming;
pub mod undoing;
pub mod view;
