//! Core of a voice assistant's speech-to-text relay.
//!
//! The voice service normalizes captured audio, turns the recognizer's
//! per-frame reports into partial, final and error events, fans them out to
//! any number of event-stream subscribers with per-subscriber lag, and queues
//! final transcripts for best-effort webhook delivery. The activator, command
//! and actions services decide what to do with a forwarded transcript.
pub mod event;
pub mod normalize;
pub mod capture;
pub mod recognizer;
pub mod hub;
pub mod forward;
pub mod relay;
pub mod sse;
pub mod settings;
pub mod clock;
pub mod activator;
pub mod command;
pub mod skills;
