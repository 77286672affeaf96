pub mod frame_processor;
