use vstd::prelude::*;
use crate::channel_pipeline::frame::{ControlFrame, DataFrame, Frame, FrameDirection, FrameMeta, SystemFrame};

verus! {

/// The inbox a component reads next in a round of draining: system frames come
/// first, then control frames, then data frames.
#[derive(Debug, Clone, Copy, PartialEq, Eq, Structural)]
pub enum DrainStage {
    System,
    Control,
    Data,
    Done,
}

/// The stage after `s` once its inbox is empty.
pub open spec fn next_stage(s: DrainStage) -> DrainStage {
    match s {
        DrainStage::System => DrainStage::Control,
        DrainStage::Control => DrainStage::Data,
        _ => DrainStage::Done,
    }
}

/// The position of a stage in the priority order.
pub open spec fn stage_rank(s: DrainStage) -> nat {
    match s {
        DrainStage::System => 0,
        DrainStage::Control => 1,
        DrainStage::Data => 2,
        DrainStage::Done => 3,
    }
}

/// What a component does once a round of draining is over.
#[derive(Debug, Clone, Copy, PartialEq, Eq, Structural)]
pub enum AfterRound {
    /// Some frame was handled: give way to other tasks, then drain again.
    YieldAndDrainAgain,
    /// Every inbox was empty: wait for the first frame of any inbox, system
    /// before control before data when several are ready.
    WaitForAny,
}

/// A round in which a component empties its inboxes by priority without waiting.
#[derive(Debug)]
pub struct DrainRound {
    pub stage: DrainStage,
    pub made_progress: bool,
}

impl DrainRound {
    /// A round that starts with the system inbox and has handled nothing.
    pub fn start() -> (r: Self)
        ensures
            r.stage == DrainStage::System,
            !r.made_progress,
    {
        DrainRound { stage: DrainStage::System, made_progress: false }
    }

    /// Records the outcome of reading the current inbox without waiting: a
    /// frame keeps the round on that inbox, an empty inbox moves it on to the
    /// next one by priority.
    pub fn record(&mut self, received: bool)
        requires
            old(self).stage != DrainStage::Done,
        ensures
            received ==> final(self).stage == old(self).stage && final(self).made_progress,
            !received ==> final(self).stage == next_stage(old(self).stage) && final(self).made_progress
                == old(self).made_progress,
            stage_rank(old(self).stage) <= stage_rank(final(self).stage),
    {
        if received {
            self.made_progress = true;
        } else {
            self.stage = match self.stage {
                DrainStage::System => DrainStage::Control,
                DrainStage::Control => DrainStage::Data,
                _ => DrainStage::Done,
            };
        }
    }

    /// What to do once every inbox was found empty.
    pub fn after(&self) -> (r: AfterRound)
        requires
            self.stage == DrainStage::Done,
        ensures
            r == (if self.made_progress {
                AfterRound::YieldAndDrainAgain
            } else {
                AfterRound::WaitForAny
            }),
    {
        if self.made_progress {
            AfterRound::YieldAndDrainAgain
        } else {
            AfterRound::WaitForAny
        }
    }
}

/// The frame a component's processor gets for a system frame from its inbox.
pub fn system_frame(meta: FrameMeta, sf: SystemFrame) -> (r: Frame)
    ensures
        r == Frame::System(meta, sf),
{
    Frame::System(meta, sf)
}

/// The frame a component's processor gets for a control frame from its inbox.
pub fn control_frame(meta: FrameMeta, cf: ControlFrame) -> (r: Frame)
    ensures
        r == Frame::Control(meta, cf),
{
    Frame::Control(meta, cf)
}

/// The frame a component's processor gets for a data frame from its inbox:
/// data arriving at a component travels downstream.
pub fn data_frame(meta: FrameMeta, df: DataFrame) -> (r: Frame)
    ensures
        r == Frame::Data(meta, FrameDirection::Downstream, df),
{
    Frame::Data(meta, FrameDirection::Downstream, df)
}

} // verus!
