//! Core logic of a push-to-talk dictation pipeline.
//!
//! While a hotkey is held, microphone audio is recorded; on release the
//! captured samples are converted to a canonical 16 kHz rate and handed to a
//! speech-to-text backend whose result is forwarded as text.  This crate
//! holds the verified parts: the resampling window arithmetic, the hotkey
//! edge detector, device resolution and enumeration, configuration handling,
//! the request/response handling of the backends, and the orchestrating
//! state machine.  Device, network and process I/O live outside of it.

pub mod audio;
pub mod cli;
pub mod config;
pub mod devices;
pub mod hotkey;
pub mod json;
pub mod orchestrator;
pub mod pcm;
pub mod text;
pub mod transcribe;
