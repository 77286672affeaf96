//! Frame routing pipelines, their processors and the scenario-spec validator.
pub mod channel_pipeline;
pub mod frame;
pub mod frame_processor;
pub mod pipeline;
pub mod spec;
pub mod transport;

pub use transport::{Endpoint, FrameRegistry, Observer, Pipeline, Processor, Transport, WebSocketTransport, WebSocketTransportConfig};
pub mod pipecat_rs_locked;
pub mod observer;
pub mod processors;
