//! Clipboard screenshot capture: bitmap decoding, duplicate detection,
//! ownership heuristics and the capture pipeline's decisions.

pub mod convert;
pub mod directories;
pub mod extensions;
pub mod heuristics;
pub mod image_buffer;
pub mod naming;
pub mod pipeline;
pub mod settings;

pub use image_buffer::{image_dimensions, image_samples, sample_count, DecodedImage};
