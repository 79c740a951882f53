//! A media transcode-and-transfer pipeline core with non-blocking progress
//! reporting.
//!
//! The library holds everything the pipeline decides: which elementary
//! streams of a probed source are kept, the encoder invocation plan and its
//! progress denominator, the transfer requests against the recording
//! server, the byte accounting behind progress snapshots, and the bounded
//! best-effort channel those snapshots travel through. The caller performs
//! the probing, the subprocess and the HTTP exchanges, and feeds their
//! results back in as plain values.

pub mod model;
pub mod numeral;
pub mod selector;
pub mod encoder;
pub mod progress;
pub mod transfer;
