//! Capturing audio into a WAV file, verified.
//!
//! Samples arrive from a device in its native format, interleaved, one
//! buffer per callback. Every frame becomes one 16-bit mono PCM sample
//! ([`sample`], [`buffer`]), with floats read exactly from their bits
//! ([`ieee`], [`scale`], [`downmix`]). The samples go into a RIFF/WAVE file
//! whose header is written with placeholder sizes and completed when the
//! stream ends ([`wav`], [`writer`]). A session ties the two together and
//! says what may happen when ([`session`]). The rules around transcribing a
//! finished recording are in [`transcript`].
//!
//! Nothing here touches a device or a file: the library hands out the bytes
//! to write and the places to write them, and its caller does the writing.

pub mod buffer;
pub mod downmix;
pub mod ieee;
pub mod le;
pub mod sample;
pub mod scale;
pub mod session;
pub mod transcript;
pub mod wav;
pub mod writer;
