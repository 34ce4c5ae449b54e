//! A verified content pipeline for single-file, multi-section source
//! documents: splitting into typed sections, preprocessing styling,
//! injecting generated references into markup, fingerprinting the result,
//! publishing immutable snapshots, and debouncing file-change events.

pub mod compiler;
pub mod fingerprint;
pub mod inject;
pub mod pipeline;
pub mod serve;
pub mod splitter;
pub mod store;
pub mod styling;
pub mod text;
pub mod watch;
