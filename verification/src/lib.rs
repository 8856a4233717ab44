//! Verified core of the VibeLights light-show sequencer: colour blending,
//! fixture grouping, the effect vocabulary, path, slug and file-name rules,
//! calendar timestamps, LLM provider resolution, and the Vixen import: the
//! system configuration, the preview and the sequence files, and the name
//! mappings.

pub mod analysis;
pub mod color;
pub mod easing;
pub mod fixture;
pub mod importer;
pub mod llm;
pub mod paths;
pub mod preview;
pub mod profile;
pub mod project;
pub mod sequence;
pub mod text;
pub mod timeline;
pub mod vixen;
