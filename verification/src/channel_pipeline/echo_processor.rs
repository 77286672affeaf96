use vstd::prelude::*;
use crate::channel_pipeline::frame::{DataFrame, Frame};

verus! {

/// Answers each input text with the same text as output, in the same direction.
#[derive(Debug)]
pub struct EchoProcessor;

impl EchoProcessor {
    /// The frame the processor sends on for `frame`: an input text becomes an
    /// output text with the same meta, direction and text; any other frame is
    /// answered with nothing.
    pub fn process_frame(&self, frame: Frame) -> (r: Option<Frame>)
        ensures
            r == (match frame {
                Frame::Data(meta, dir, DataFrame::InputText(text)) => Some(
                    Frame::Data(meta, dir, DataFrame::OutputText(text)),
                ),
                _ => None,
            }),
    {
        match frame {
            Frame::Data(meta, dir, DataFrame::InputText(text)) => Some(
                Frame::Data(meta, dir, DataFrame::OutputText(text)),
            ),
            _ => None,
        }
    }
}

} // verus!
