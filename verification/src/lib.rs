//! Local speech-to-text for Wayland: the logic of the dictation daemon, its
//! command-line client and its diagnostics.

pub mod activate;
pub mod audio;
pub mod capture;
pub mod cli;
pub mod client;
pub mod config;
pub mod daemon;
pub mod doctor;
pub mod engine;
pub mod inject;
pub mod ipc;
pub mod model;
pub mod order;
pub mod overlay;
pub mod paint;
pub mod paths;
pub mod postproc;
pub mod probe;
pub mod resample;
pub mod segments;
pub mod session;
pub mod text;
pub mod wav;
pub mod wayland;
