//! A binary file-carving engine: scans an arbitrary byte blob for embedded
//! files by their magic signatures (PNG, JPEG, WAV/WEBP, OGG, WEBM, MP3,
//! Unity asset bundles), recovers each object's byte length with a
//! per-format rule, and reports the committed byte ranges. Writing the
//! recovered ranges to disk is left to the caller.

pub mod sig;
pub mod calc;
pub mod scan;
pub mod paths;
