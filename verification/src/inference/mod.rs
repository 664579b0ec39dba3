//! Inference: what is decided around the models.

pub mod options;
pub mod pipeline;
pub mod quality;
pub mod reference;
pub mod split;
