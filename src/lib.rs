//! A fixed-point additive oscillator engine: three phase-accumulating
//! oscillators of a shared waveform, tuned from one base frequency and summed
//! into a single signal.
//!
//! Every control value is a Q16.16 fixed-point number (`UNIT` is 1.0), the
//! phase of an oscillator is an exact fraction of a cycle, and each rendered
//! sample is a waveform level (Q16.16) times a gain (Q16.16), so that full
//! scale is `UNIT * UNIT`.
pub mod plugin;
pub mod wave;
