use vstd::prelude::*;

verus! {

/// A frame's identifier, drawn at random when the frame is made.
#[verifier::external_type_specification]
#[verifier::external_body]
pub struct ExUuid(uuid::Uuid);

/// The moment a frame was made.
#[verifier::external_type_specification]
#[verifier::external_body]
pub struct ExInstant(tokio::time::Instant);

/// Where a frame comes from: its identifier and the moment it was made.
#[derive(Debug, Clone, Copy, PartialEq, Eq)]
pub struct FrameMeta {
    pub id: uuid::Uuid,
    pub timestamp: tokio::time::Instant,
}

/// The direction in which a data frame travels between components.
#[derive(Debug, Clone, Copy, PartialEq, Eq, Structural)]
pub enum FrameDirection {
    Upstream,
    Downstream,
}

/// A frame: system and control frames go to every component, data frames to a
/// neighbour.
#[derive(Debug, Clone, PartialEq, Eq)]
pub enum Frame {
    System(FrameMeta, SystemFrame),
    Control(FrameMeta, ControlFrame),
    Data(FrameMeta, FrameDirection, DataFrame),
}

#[derive(Debug, Clone, Copy, PartialEq, Eq, Structural)]
pub enum SystemFrame {
    Start,
}

#[derive(Debug, Clone, Copy, PartialEq, Eq, Structural)]
pub enum ControlFrame {
    Stop,
    End,
}

#[derive(Debug, Clone, PartialEq, Eq)]
pub enum DataFrame {
    InputText(String),
    OutputText(String),
}

} // verus!
