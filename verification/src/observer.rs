use vstd::prelude::*;
use crate::pipecat_rs_locked::frame::{same_frame, Frame};

verus! {

/// What an observer recorded: the frames a processor took in and the frames it
/// sent out, each in order.
pub struct ObserverLog {
    pub processed: Seq<Frame>,
    pub emitted: Seq<Frame>,
}

/// Records the frames a processor handles and the frames it emits.
#[derive(Debug)]
pub struct Observer {
    processed_frames: Vec<Frame>,
    emitted_frames: Vec<Frame>,
}

impl View for Observer {
    type V = ObserverLog;

    closed spec fn view(&self) -> ObserverLog {
        ObserverLog { processed: self.processed_frames@, emitted: self.emitted_frames@ }
    }
}

/// Whether `predicate`, called on a copy of some frame of `frames`, answered `true`.
pub open spec fn some_copy_satisfies<F: Fn(Frame) -> bool>(frames: Seq<Frame>, predicate: F) -> bool {
    exists|i: int, c: Frame|
        0 <= i < frames.len() && #[trigger] same_frame(frames[i], c) && predicate.ensures((c,), true)
}

/// Whether `predicate`, called on a copy of each frame of `frames`, answered `false` each time.
pub open spec fn every_copy_fails<F: Fn(Frame) -> bool>(frames: Seq<Frame>, predicate: F) -> bool {
    forall|i: int| 0 <= i < frames.len() ==> #[trigger] copy_fails(frames[i], predicate)
}

/// Whether `predicate`, called on a copy of `frame`, answered `false`.
pub open spec fn copy_fails<F: Fn(Frame) -> bool>(frame: Frame, predicate: F) -> bool {
    exists|c: Frame| same_frame(frame, c) && #[trigger] predicate.ensures((c,), false)
}

/// Calls `predicate` on a copy of each frame of `frames`, in order, until it answers `true`.
fn any_frame<F: Fn(Frame) -> bool>(frames: &Vec<Frame>, predicate: F) -> (r: bool)
    requires
        forall|f: Frame| predicate.requires((f,)),
    ensures
        r ==> some_copy_satisfies(frames@, predicate),
        !r ==> every_copy_fails(frames@, predicate),
{
    let mut i: usize = 0;
    while i < frames.len()
        invariant
            i <= frames@.len(),
            forall|f: Frame| predicate.requires((f,)),
            every_copy_fails(frames@.subrange(0, i as int), predicate),
        decreases frames@.len() - i,
    {
        let c = frames[i].clone();
        if predicate(c) {
            assert(same_frame(frames@[i as int], c));
            return true;
        }
        proof {
            let pre = frames@.subrange(0, i as int);
            let post = frames@.subrange(0, i + 1);
            assert forall|j: int| 0 <= j < post.len() implies #[trigger] copy_fails(post[j], predicate) by {
                if j < i {
                    assert(post[j] == pre[j]);
                    assert(copy_fails(pre[j], predicate));
                } else {
                    assert(same_frame(post[j], c) && predicate.ensures((c,), false));
                }
            }
        }
        i = i + 1;
    }
    assert(frames@.subrange(0, frames@.len() as int) =~= frames@);
    false
}

/// Copies a list of frames.
fn copy_frames(frames: &Vec<Frame>) -> (r: Vec<Frame>)
    ensures
        r@.len() == frames@.len(),
        forall|i: int| 0 <= i < frames@.len() ==> same_frame(frames@[i], #[trigger] r@[i]),
{
    let mut r: Vec<Frame> = Vec::new();
    for i in 0..frames.len()
        invariant
            r@.len() == i,
            forall|j: int| 0 <= j < i ==> same_frame(frames@[j], #[trigger] r@[j]),
    {
        r.push(frames[i].clone());
    }
    r
}

impl Observer {
    /// An observer that recorded nothing.
    pub fn new() -> (o: Self)
        ensures
            o@.processed == Seq::<Frame>::empty(),
            o@.emitted == Seq::<Frame>::empty(),
    {
        Observer { processed_frames: Vec::new(), emitted_frames: Vec::new() }
    }

    /// Records a frame the processor took in.
    pub fn record_processed(&mut self, frame: Frame)
        ensures
            final(self)@.processed == old(self)@.processed.push(frame),
            final(self)@.emitted == old(self)@.emitted,
    {
        self.processed_frames.push(frame);
    }

    /// Records a frame the processor sent out.
    pub fn record_emitted(&mut self, frame: Frame)
        ensures
            final(self)@.emitted == old(self)@.emitted.push(frame),
            final(self)@.processed == old(self)@.processed,
    {
        self.emitted_frames.push(frame);
    }

    /// Forgets everything recorded so far.
    pub fn clear(&mut self)
        ensures
            final(self)@.processed == Seq::<Frame>::empty(),
            final(self)@.emitted == Seq::<Frame>::empty(),
    {
        self.processed_frames.clear();
        self.emitted_frames.clear();
    }

    /// A copy of the frames the processor took in, in order.
    pub fn processed_frames(&self) -> (r: Vec<Frame>)
        ensures
            r@.len() == self@.processed.len(),
            forall|i: int| 0 <= i < r@.len() ==> same_frame(self@.processed[i], #[trigger] r@[i]),
    {
        copy_frames(&self.processed_frames)
    }

    /// A copy of the frames the processor sent out, in order.
    pub fn emitted_frames(&self) -> (r: Vec<Frame>)
        ensures
            r@.len() == self@.emitted.len(),
            forall|i: int| 0 <= i < r@.len() ==> same_frame(self@.emitted[i], #[trigger] r@[i]),
    {
        copy_frames(&self.emitted_frames)
    }

    /// Whether `predicate` holds of some frame the processor took in; it is
    /// called on a copy of each, in order, until it answers `true`.
    pub fn processed_contains<F: Fn(Frame) -> bool>(&self, predicate: F) -> (r: bool)
        requires
            forall|f: Frame| predicate.requires((f,)),
        ensures
            r ==> some_copy_satisfies(self@.processed, predicate),
            !r ==> every_copy_fails(self@.processed, predicate),
    {
        any_frame(&self.processed_frames, predicate)
    }

    /// Whether `predicate` holds of some frame the processor sent out; it is
    /// called on a copy of each, in order, until it answers `true`.
    pub fn emitted_contains<F: Fn(Frame) -> bool>(&self, predicate: F) -> (r: bool)
        requires
            forall|f: Frame| predicate.requires((f,)),
        ensures
            r ==> some_copy_satisfies(self@.emitted, predicate),
            !r ==> every_copy_fails(self@.emitted, predicate),
    {
        any_frame(&self.emitted_frames, predicate)
    }
}

} // verus!
