//! Audio-analysis records that need no numeric data: which features to run,
//! where separated stems live, and the state of the Python environment.

use vstd::prelude::*;

verus! {

/// Boolean flags for which analysis features to run or were completed.
#[derive(Debug, Clone, PartialEq, Eq, Structural)]
pub struct AnalysisFeatures {
    pub beats: bool,
    pub structure: bool,
    pub stems: bool,
    pub lyrics: bool,
    pub mood: bool,
    pub harmony: bool,
    pub low_level: bool,
    pub pitch: bool,
    pub drums: bool,
    pub vocal_presence: bool,
}

impl Default for AnalysisFeatures {
    /// Every feature enabled.
    fn default() -> (f: Self)
        ensures
            f == (AnalysisFeatures {
                beats: true,
                structure: true,
                stems: true,
                lyrics: true,
                mood: true,
                harmony: true,
                low_level: true,
                pitch: true,
                drums: true,
                vocal_presence: true,
            }),
    {
        Self {
            beats: true,
            structure: true,
            stems: true,
            lyrics: true,
            mood: true,
            harmony: true,
            low_level: true,
            pitch: true,
            drums: true,
            vocal_presence: true,
        }
    }
}

/// Paths, relative to the media directory, of the separated stems.
#[derive(Debug, Clone)]
pub struct StemAnalysis {
    /// Relative path to vocals stem WAV
    pub vocals: String,
    /// Relative path to drums stem WAV
    pub drums: String,
    /// Relative path to bass stem WAV
    pub bass: String,
    /// Relative path to other/accompaniment stem WAV
    pub other: String,
}

/// State of the Python analysis environment.
#[derive(Debug, Clone)]
pub struct PythonEnvStatus {
    pub uv_available: bool,
    pub python_installed: bool,
    pub venv_exists: bool,
    pub deps_installed: bool,
    pub installed_models: Vec<String>,
    pub sidecar_running: bool,
    pub sidecar_port: u32,
    pub gpu_available: bool,
}

impl Default for PythonEnvStatus {
    /// Nothing available, installed or running; no models; port 0.
    fn default() -> (s: Self)
        ensures
            !s.uv_available && !s.python_installed && !s.venv_exists && !s.deps_installed,
            s.installed_models@.len() == 0,
            !s.sidecar_running && s.sidecar_port == 0 && !s.gpu_available,
    {
        Self {
            uv_available: false,
            python_installed: false,
            venv_exists: false,
            deps_installed: false,
            installed_models: Vec::new(),
            sidecar_running: false,
            sidecar_port: 0,
            gpu_available: false,
        }
    }
}

} // verus!
