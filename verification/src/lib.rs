//! A status-bar library: widgets sample a data source (a command's output or
//! a file's first line), optionally parse the sample as a number, map it
//! through a color rule, and render markup for a bar host.
//!
//! Acquiring the raw bytes (spawning a process, reading a file) is the
//! caller's job; everything from raw bytes to the final bar string is
//! verified here.

pub mod bar;
pub mod colorizer;
pub mod data;
pub mod retrieve;
pub mod text;
pub mod widget;
