//! rxer: the parsing, resolution and playback logic of a terminal internet-radio
//! receiver, with contracts proved by Verus.
pub mod audio;
pub mod builds;
pub mod cli;
pub mod config;
pub mod hls;
pub mod num;
pub mod output;
pub mod radio;
pub mod text;
pub mod web;
