//! Conversion requests for a media transcoder.
//!
//! `args` compiles a request into the ordered argument list of the
//! transcoder, resolves the output path and judges whether a request may
//! run. `upscale` is the pipeline that decodes a source into frames, has
//! them upscaled and encodes them again; `run` states what holds of every
//! run of it. The other modules hold what these two share.

pub mod args;
pub mod error;
pub mod lines;
pub mod number;
pub mod path;
pub mod progress;
pub mod run;
pub mod text;
pub mod types;
pub mod upscale;
pub mod utils;
pub mod video;
