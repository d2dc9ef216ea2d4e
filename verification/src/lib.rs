//! Synthetic load shaping: a requested number of rows is spread over a time
//! window, one count per second, following one of several shapes.
//!
//! [`augmentation`] holds the distribution engine, [`config`] the settings it
//! reads, and [`text`] what both need to compare texts.

pub mod augmentation;
pub mod config;
pub mod text;
