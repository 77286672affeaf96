use vstd::prelude::*;

verus! {

/// The payload carried by a frame.
#[derive(Copy, Clone, Debug, PartialEq, Eq, Structural)]
pub enum FrameType {
    Heartbeat,
}

/// A frame travels either towards the source (upstream) or towards the sink (downstream).
#[derive(Copy, Clone, Debug, PartialEq, Eq, Structural)]
pub enum Frame {
    Upstream(FrameType),
    Downstream(FrameType),
}

impl Frame {
    /// Whether the frame travels downstream.
    pub fn is_downstream(&self) -> (r: bool)
        ensures
            r == (*self is Downstream),
    {
        match self {
            Frame::Downstream(_) => true,
            Frame::Upstream(_) => false,
        }
    }
}

} // verus!
