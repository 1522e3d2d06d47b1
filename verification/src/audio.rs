//! Audio capture logic: choosing the capture pipeline, building the ffmpeg
//! command line, cutting the PCM stream into fixed-size chunks, measuring a
//! chunk's energy for the voice gate, and wrapping PCM as WAV. The
//! subprocesses and the transcription calls live in the app.

pub mod pipeline;
pub mod vad;
pub mod wav;
