//! Logic of the Translator Overlay desktop application: OCR text handling, merge and stability
//! rules, configuration, capture geometry, the translation pipeline and the view models of the
//! control window.

// Values and texts.
pub mod clock;
pub mod scalar;
pub mod text;
pub mod types;

// Settings and stored files.
pub mod api_profiles;
pub mod cli;
pub mod config;
pub mod lenient;
pub mod paths;
pub mod region_presets;
pub mod region_profiles;

// Capture.
pub mod client_area;
pub mod frame;
pub mod resize_watch;
pub mod session;

// OCR.
pub mod download;
pub mod engine;
pub mod filter;
pub mod fingerprint;
pub mod merge;
pub mod models;
pub mod normalize;
pub mod paragraphs;
pub mod sorting;
pub mod stability;

// Pipeline.
pub mod pipeline;
pub mod polled;
pub mod polling;
pub mod remap;
pub mod state;
pub mod wake;

// Control window.
pub mod preview;
pub mod ui;
pub mod windowing;
