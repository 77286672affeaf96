use vstd::prelude::*;
use crate::frame::frame::Frame;

verus! {

/// What a processor has seen so far: every frame it received, in arrival order,
/// split into the frames pushed to it from outside and the frames handed to it
/// for processing.
pub struct ProcessorLog {
    pub frame_count: nat,
    pub received: Seq<Frame>,
    pub pushed: Seq<Frame>,
    pub processed: Seq<Frame>,
}

/// The processor that every pipeline uses for its source and sink: it counts the
/// frames it receives and keeps them.
#[derive(Debug)]
pub struct DefaultFrameProcessor {
    frame_count: u32,
    received_frames: Vec<Frame>,
    pushed_frames: Vec<Frame>,
    processed_frames: Vec<Frame>,
}

impl View for DefaultFrameProcessor {
    type V = ProcessorLog;

    closed spec fn view(&self) -> ProcessorLog {
        ProcessorLog {
            frame_count: self.frame_count as nat,
            received: self.received_frames@,
            pushed: self.pushed_frames@,
            processed: self.processed_frames@,
        }
    }
}

/// Whether `s` is `a` and `b` merged: every element of `s` comes from one of
/// them, and each keeps its own order.
pub open spec fn interleaves<A>(s: Seq<A>, a: Seq<A>, b: Seq<A>) -> bool
    decreases s.len(),
{
    if s.len() == 0 {
        a.len() == 0 && b.len() == 0
    } else {
        ||| a.len() > 0 && a.last() == s.last() && interleaves(s.drop_last(), a.drop_last(), b)
        ||| b.len() > 0 && b.last() == s.last() && interleaves(s.drop_last(), a, b.drop_last())
    }
}

/// Whether the elements of `sub` occur in `s` in the same order: they sit at
/// increasing positions of `s`.
pub open spec fn is_subsequence<A>(sub: Seq<A>, s: Seq<A>) -> bool {
    exists|idx: Seq<int>| #[trigger] picks(idx, sub, s)
}

/// `idx` gives, for each element of `sub`, an increasing position of `s` that holds it.
pub open spec fn picks<A>(idx: Seq<int>, sub: Seq<A>, s: Seq<A>) -> bool {
    &&& idx.len() == sub.len()
    &&& forall|i: int, j: int| 0 <= i < j < idx.len() ==> idx[i] < idx[j]
    &&& forall|i: int| 0 <= i < idx.len() ==> 0 <= #[trigger] idx[i] < s.len() && s[idx[i]] == sub[i]
}

/// Positions picked in `s` stay valid in `s.push(x)`, and picking `x` last
/// extends them.
proof fn lemma_picks_extend<A>(idx: Seq<int>, sub: Seq<A>, s: Seq<A>, x: A)
    requires
        picks(idx, sub, s),
    ensures
        picks(idx, sub, s.push(x)),
        picks(idx.push(s.len() as int), sub.push(x), s.push(x)),
{
    let t = s.push(x);
    assert forall|i: int| 0 <= i < idx.len() implies 0 <= #[trigger] idx[i] < t.len() && t[idx[i]] == sub[i] by {
        assert(t[idx[i]] == s[idx[i]]);
    }
    let idx2 = idx.push(s.len() as int);
    let sub2 = sub.push(x);
    assert forall|i: int| 0 <= i < idx2.len() implies 0 <= #[trigger] idx2[i] < t.len() && t[idx2[i]] == sub2[i] by {
        if i < idx.len() {
            assert(idx2[i] == idx[i]);
            assert(t[idx[i]] == s[idx[i]]);
        }
    }
}

/// A merge of `a` and `b` is as long as both together and holds each of them
/// in order.
pub proof fn lemma_interleaving_keeps_order<A>(s: Seq<A>, a: Seq<A>, b: Seq<A>)
    requires
        interleaves(s, a, b),
    ensures
        a.len() + b.len() == s.len(),
        is_subsequence(a, s),
        is_subsequence(b, s),
    decreases s.len(),
{
    if s.len() == 0 {
        assert(picks(Seq::<int>::empty(), a, s));
        assert(picks(Seq::<int>::empty(), b, s));
    } else {
        let s0 = s.drop_last();
        assert(s0.push(s.last()) =~= s);
        if a.len() > 0 && a.last() == s.last() && interleaves(s0, a.drop_last(), b) {
            lemma_interleaving_keeps_order(s0, a.drop_last(), b);
            let ia = choose|idx: Seq<int>| picks(idx, a.drop_last(), s0);
            let ib = choose|idx: Seq<int>| picks(idx, b, s0);
            lemma_picks_extend(ia, a.drop_last(), s0, s.last());
            lemma_picks_extend(ib, b, s0, s.last());
            assert(a.drop_last().push(s.last()) =~= a);
            assert(picks(ia.push(s0.len() as int), a, s));
            assert(picks(ib, b, s));
        } else {
            lemma_interleaving_keeps_order(s0, a, b.drop_last());
            let ia = choose|idx: Seq<int>| picks(idx, a, s0);
            let ib = choose|idx: Seq<int>| picks(idx, b.drop_last(), s0);
            lemma_picks_extend(ia, a, s0, s.last());
            lemma_picks_extend(ib, b.drop_last(), s0, s.last());
            assert(b.drop_last().push(s.last()) =~= b);
            assert(picks(ia, a, s));
            assert(picks(ib.push(s0.len() as int), b, s));
        }
    }
}

/// Copies a list of frames element by element.
fn copy_frames(frames: &Vec<Frame>) -> (r: Vec<Frame>)
    ensures
        r@ == frames@,
{
    let mut r: Vec<Frame> = Vec::new();
    for i in 0..frames.len()
        invariant
            r@ == frames@.subrange(0, i as int),
    {
        r.push(frames[i]);
    }
    assert(frames@.subrange(0, frames@.len() as int) =~= frames@);
    r
}

impl DefaultFrameProcessor {
    /// The counter agrees with the frames kept, and the frames received are
    /// the frames pushed and the frames processed, merged in arrival order.
    pub open spec fn wf(&self) -> bool {
        &&& self@.frame_count == self@.received.len()
        &&& interleaves(self@.received, self@.pushed, self@.processed)
    }

    /// The log of a processor that has seen nothing.
    pub open spec fn new_log() -> ProcessorLog {
        ProcessorLog {
            frame_count: 0,
            received: Seq::empty(),
            pushed: Seq::empty(),
            processed: Seq::empty(),
        }
    }

    /// A processor that has seen nothing.
    pub fn new() -> (p: Self)
        ensures
            p.wf(),
            p@ == Self::new_log(),
    {
        DefaultFrameProcessor {
            frame_count: 0,
            received_frames: Vec::new(),
            pushed_frames: Vec::new(),
            processed_frames: Vec::new(),
        }
    }

    /// How many frames the processor has received.
    pub fn get_frame_count(&self) -> (n: u32)
        ensures
            n as nat == self@.frame_count,
    {
        self.frame_count
    }

    /// Every frame received so far, in arrival order.
    pub fn get_recieved_frames(&self) -> (r: Vec<Frame>)
        ensures
            r@ == self@.received,
    {
        copy_frames(&self.received_frames)
    }

    /// The frames pushed to this processor from outside, in arrival order.
    pub fn get_pushed_frames(&self) -> (r: Vec<Frame>)
        ensures
            r@ == self@.pushed,
    {
        copy_frames(&self.pushed_frames)
    }

    /// Hands a frame to the processor for processing: it is counted and kept
    /// as received and as processed.
    pub fn process_frame(&mut self, frame: Frame)
        requires
            old(self)@.frame_count < u32::MAX,
        ensures
            final(self)@.frame_count == old(self)@.frame_count + 1,
            final(self)@.received == old(self)@.received.push(frame),
            final(self)@.processed == old(self)@.processed.push(frame),
            final(self)@.pushed == old(self)@.pushed,
            old(self).wf() ==> final(self).wf(),
    {
        self.frame_count = self.frame_count + 1;
        self.received_frames.push(frame);
        self.processed_frames.push(frame);
        assert(self@.received.drop_last() =~= old(self)@.received);
        assert(self@.processed.drop_last() =~= old(self)@.processed);
    }

    /// Pushes a frame into the processor from outside: it is counted and kept
    /// as received and as pushed.
    pub fn push_frame(&mut self, frame: Frame)
        requires
            old(self)@.frame_count < u32::MAX,
        ensures
            final(self)@.frame_count == old(self)@.frame_count + 1,
            final(self)@.received == old(self)@.received.push(frame),
            final(self)@.pushed == old(self)@.pushed.push(frame),
            final(self)@.processed == old(self)@.processed,
            old(self).wf() ==> final(self).wf(),
    {
        self.frame_count = self.frame_count + 1;
        self.received_frames.push(frame);
        self.pushed_frames.push(frame);
        assert(self@.received.drop_last() =~= old(self)@.received);
        assert(self@.pushed.drop_last() =~= old(self)@.pushed);
    }
}

/// Whatever a processor was handed and pushed, the frames pushed to it and the
/// frames it processed each appear among the frames it received, in the order
/// they came, and together they are all it received.
pub proof fn lemma_received_keeps_pushed_and_processed_in_order(p: DefaultFrameProcessor)
    requires
        p.wf(),
    ensures
        is_subsequence(p@.pushed, p@.received),
        is_subsequence(p@.processed, p@.received),
        p@.pushed.len() + p@.processed.len() == p@.received.len(),
{
    lemma_interleaving_keeps_order(p@.received, p@.pushed, p@.processed);
}

} // verus!
