//! A procedural video synthesizer: shapes placed in a pixel-centred
//! coordinate space are recorded on a command timeline, rasterized into
//! RGBA pixel buffers, and streamed frame by frame to an external encoder.
//!
//! This crate holds the verified core of the pipeline: the shape layer and
//! its centroid-preserving scale transform, the command timeline, the scene
//! registry, the per-command render planning (coordinate mapping, vertical
//! flip, frame-hold timing), and the encoder invocation contract.  The GPU
//! calls and the encoder subprocess themselves live outside the library and
//! only carry out the plans computed here.
pub mod draw;
pub mod registry;
pub mod render;
pub mod shapes;
pub mod video;
