//! A pipeline whose components run as tasks and exchange frames through channels.
pub mod echo_processor;
pub mod frame;
pub mod pipeline;
pub mod pipeline_component;
