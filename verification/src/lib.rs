//! Building blocks of a network virtual microphone.

pub mod autostart;
pub mod codec;
pub mod config;
pub mod console;
pub mod delay;
pub mod depth;
pub mod display;
pub mod engine;
pub mod filler;
pub mod ingest;
pub mod jitter;
pub mod loopback;
pub mod millis;
pub mod playback;
pub mod profile;
pub mod protocol;
pub mod proxy;
pub mod rng;
pub mod run;
pub mod screen;
pub mod sequence;
pub mod setup;
pub mod sorting;
pub mod stats;
pub mod tcp;
pub mod text;
pub mod tray;
pub mod udp;
pub mod vu;
