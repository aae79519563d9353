//! Scheduling, partitioning and result assembly around a speech recogniser.
//!
//! A long recording is cut into overlapping windows ([`chunker`]), each
//! window is decoded by an engine of its own while a bound on the engines at
//! work is kept ([`pipeline`]), the share of finished windows is
//! told to a listener ([`progress`]), what the engines report is moved into
//! the time of the recording ([`worker`]), put in order and freed of what the
//! overlap made double ([`merger`]), and rendered as subtitles
//! ([`formatter`], [`result`]). Beside this stands the table of live
//! sessions, each around one streaming recogniser ([`session`]).
//!
//! Every time is a whole number of milliseconds. The engines and recognisers
//! are driven by the caller; this library decides and counts.

pub mod audio;
pub mod chunker;
pub mod error;
pub mod formatter;
pub mod gate;
pub mod live_transcriber;
pub mod merger;
pub mod models;
pub mod pipeline;
pub mod progress;
pub mod result;
pub mod segment;
pub mod session;
pub mod settings;
pub mod srt_reader;
pub mod text;
pub mod transcriber;
pub mod wav;
pub mod worker;
