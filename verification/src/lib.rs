//! Streaming engine of an internet radio station.

pub mod annotate;
pub mod audio_processing;
pub mod autodj;
pub mod callbacks;
pub mod cli;
pub mod codec;
pub mod config;
pub mod control;
pub mod crossfade;
pub mod decode;
pub mod feedback;
pub mod fields;
pub mod harbor;
pub mod hls;
#[allow(unused_imports)]
pub mod laws;
pub mod media;
pub mod output;
pub mod pipeline;
pub mod prepare;
pub mod queue;
pub mod server;
pub mod text;
