//! Mitochondrial variant calling and filtering: contig resolution, input
//! validation, pipeline planning and the record filtering engine.
//!
//! The library decides; its caller probes files, reads headers and runs the
//! external tools, handing the results over as plain values.

pub mod call;
pub mod check;
pub mod contig;
pub mod decompose;
pub mod error;
pub mod filter;
pub mod mity_util;
pub mod normalise;
pub mod pipeline;
pub mod quality;
pub mod record;
pub mod text;
