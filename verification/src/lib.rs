//! A MIDI control-change (CC) override engine.
//!
//! An operator can pin CC values (volume, pan, reverb, chorus, modulation,
//! expression, sustain) either globally or per MIDI channel. The engine
//! stores that intent, resolves the effective value for each channel with
//! global fallback, and injects the resolved values into a live synthesizer
//! after each rendered audio buffer, so the operator's values win over
//! whatever the MIDI file itself requests.

pub mod audio;
pub mod inject;
pub mod parse;
pub mod state;
