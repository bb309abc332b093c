//! Incremental decoder for the FLV container format.
//!
//! A byte stream is accepted in arbitrarily sized chunks and decoded into a
//! file header followed by an ordered sequence of audio, video and script
//! tags.  Every decoded record is validated against the format's redundant
//! integrity fields before it is handed to the caller.

pub mod bytes;
pub mod demuxer;
pub mod error;
pub mod structure;
pub mod tag;
