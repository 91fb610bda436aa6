//! Fixed-length timelapse planning: exact decimal durations, the playback
//! speed factor, the ffmpeg / ffprobe argument lists, and the run itself as a
//! state machine that a thin driver feeds with process outcomes.
pub mod decimal;
pub mod factor;
pub mod render;
pub mod pipeline;
