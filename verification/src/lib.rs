//! Core of a media operation pipeline: it turns segment, merge and
//! compression requests into engine argument vectors with deterministic,
//! collision-free output naming, a two-tier copy/re-encode fallback for
//! merging, progress estimation from the engine's progress file, and
//! per-segment failure accounting so that one bad segment does not abort
//! a batch. The external transcoding engine itself is invoked by the
//! surrounding application; this crate decides what to run and proves
//! what each decision means.

pub mod batch;
pub mod cutter;
pub mod encoder;
pub mod merger;
pub mod namer;
pub mod path;
pub mod probe;
pub mod progress;
pub mod text;
pub mod types;
