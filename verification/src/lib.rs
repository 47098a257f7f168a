//! Core of a push-to-talk speech-to-text daemon.
//!
//! The crate verifies the three subsystems that carry the real logic:
//! the PTT runtime state machine, the audio capture and level-metering
//! pipeline (over fixed-point samples), and the content-addressed model
//! cache.  Device backends, keyboard taps, file and network access live
//! outside the library and hand it plain values.

pub mod audio;
pub mod capture;
pub mod digest;
pub mod engine;
pub mod hotkeys;
pub mod inject;
pub mod listener;
pub mod logstore;
pub mod meter;
pub mod model;
pub mod resample;
pub mod runtime;
pub mod settings;
pub mod state;
pub mod text;
