//! Finds the audio and MIDI files under a directory, as a walk that a driver
//! runs: the library decides which directory to list and which file to measure,
//! and the driver does the reading.
pub mod classify;
pub mod greeting;
pub mod scanner;
