//! Real-time core of a command-line audio tool: MIDI note parsing, the bounded
//! event queue between the MIDI and render callbacks, the polyphonic voice set,
//! block helpers for the render callbacks and fixed-point sample conversion.

pub mod event;
pub mod queue;
pub mod voices;
pub mod block;
pub mod pcm;
pub mod names;
pub mod control;
pub mod render;
pub mod bridge;
