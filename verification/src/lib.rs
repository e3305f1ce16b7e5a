//! The marshaling core of a binding to a native media-inspection engine.
//!
//! The engine itself analyzes containers and bitstreams behind a C-style
//! ABI and is not part of this crate; what lives here, stated in contracts
//! and proved, is everything between a caller's values and that boundary:
//! the wide-character string codec with its round-trip and rejection laws,
//! the session-level conventions (stream and info-kind codes, the error
//! taxonomy, the empty-reply convention, the split 64-bit seek positions),
//! the typed decoding of fetched field texts into integers, durations and
//! timestamps, and the derived readers over typed stream descriptors.

pub mod bridge;
pub mod c_w_string;
pub mod fields;
pub mod session;
pub mod streams;
