use vstd::prelude::*;
use crate::channel_pipeline::frame::{ControlFrame, DataFrame, Frame, FrameDirection, SystemFrame};

verus! {

/// What the router does with a frame a component sent.
#[derive(Debug)]
pub enum Route {
    /// Give the system frame to every component.
    BroadcastSystem(SystemFrame),
    /// Give the control frame to every component.
    BroadcastControl(ControlFrame),
    /// Give the data frame to the component at this index.
    Deliver(usize, DataFrame),
    /// There is no component in that direction: the frame is dropped.
    Drop,
}

/// The component a data frame from `origin` travels to: the next one
/// downstream, the previous one upstream; none past either end.
pub open spec fn neighbour(origin: usize, dir: FrameDirection, num_components: usize) -> Option<usize> {
    match dir {
        FrameDirection::Downstream => if origin + 1 < num_components && origin + 1 <= usize::MAX {
            Some((origin + 1) as usize)
        } else {
            None
        },
        FrameDirection::Upstream => if origin >= 1 && origin - 1 < num_components {
            Some((origin - 1) as usize)
        } else {
            None
        },
    }
}

/// Decides where a frame that the component at `origin` sent goes: system and
/// control frames to every component, a data frame to its neighbour in its
/// direction, or nowhere when there is no such neighbour.
pub fn route(origin: usize, frame: Frame, num_components: usize) -> (r: Route)
    ensures
        r == (match frame {
            Frame::System(_, sf) => Route::BroadcastSystem(sf),
            Frame::Control(_, cf) => Route::BroadcastControl(cf),
            Frame::Data(_, dir, df) => match neighbour(origin, dir, num_components) {
                Some(t) => Route::Deliver(t, df),
                None => Route::Drop,
            },
        }),
{
    match frame {
        Frame::System(_, sf) => Route::BroadcastSystem(sf),
        Frame::Control(_, cf) => Route::BroadcastControl(cf),
        Frame::Data(_, dir, df) => {
            let target = match dir {
                FrameDirection::Downstream => origin.checked_add(1),
                FrameDirection::Upstream => origin.checked_sub(1),
            };
            match target {
                Some(t) => if t < num_components {
                    Route::Deliver(t, df)
                } else {
                    Route::Drop
                },
                None => Route::Drop,
            }
        },
    }
}


/// A data frame is only ever delivered to a component that exists and is next
/// to the one that sent it: one further downstream, or one further upstream.
pub proof fn lemma_delivery_goes_to_a_neighbour(origin: usize, dir: FrameDirection, num_components: usize)
    ensures
        neighbour(origin, dir, num_components) matches Some(t) ==> {
            &&& t < num_components
            &&& dir == FrameDirection::Downstream ==> t == origin + 1
            &&& dir == FrameDirection::Upstream ==> t + 1 == origin
        },
{
}

/// A data frame is dropped only at the ends of the pipeline: from any
/// component but the first, a frame going upstream reaches the one before it;
/// from any component but the last, a frame going downstream reaches the one
/// after it.
pub proof fn lemma_data_frames_are_dropped_only_at_the_ends(origin: usize, num_components: usize)
    requires
        origin < num_components,
    ensures
        origin >= 1 ==> neighbour(origin, FrameDirection::Upstream, num_components) == Some((origin - 1) as usize),
        origin + 1 < num_components ==> neighbour(origin, FrameDirection::Downstream, num_components) == Some(
            (origin + 1) as usize,
        ),
        neighbour(origin, FrameDirection::Upstream, num_components) is None ==> origin == 0,
        neighbour(origin, FrameDirection::Downstream, num_components) is None ==> origin + 1 == num_components,
{
}

} // verus!
