//! Verified core of an audio level visualiser for status bars.

pub mod channel;
pub mod formatter;
pub mod input;
pub mod meter;
pub mod player;
pub mod pulseaudio;
pub mod text;
pub mod visualiser;
