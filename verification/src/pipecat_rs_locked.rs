//! The frame types of the observed processor pipeline.
pub mod frame;
