//! Planning a video-to-GIF conversion: a clock-time duration type, analysis
//! of probed media metadata, derivation of the encoder's three argument
//! lists, and the staged pipeline that gates each call on the one before.

pub mod duration;
pub mod pipeline;
pub mod plan;
pub mod probe;
pub mod text;
