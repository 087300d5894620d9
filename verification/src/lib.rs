//! Streaming video ingestion for a small drone ground station: a boundary
//! parser that reassembles H.264 NAL units from an arbitrarily-chunked byte
//! stream, a decode orchestrator that drives the codec and applies frame-skip
//! decimation, gamepad state decoding, and the small pieces of UI state the
//! presentation layer reads.

pub mod desktop;
pub mod gamepad;
pub mod ui;
pub mod utils;
pub mod video;
