use vstd::prelude::*;
use crate::observer::{Observer, ObserverLog};
use crate::pipecat_rs_locked::frame::{same_frame, DataFrame, Frame};

verus! {

/// `new` is `old` with `frame` recorded as taken in.
pub open spec fn recorded_processed(old: ObserverLog, new: ObserverLog, frame: Frame) -> bool {
    &&& new.emitted == old.emitted
    &&& new.processed.len() == old.processed.len() + 1
    &&& new.processed.drop_last() == old.processed
    &&& same_frame(frame, new.processed.last())
}

/// `new` is `old` with `frame` recorded as sent out.
pub open spec fn recorded_emitted(old: ObserverLog, new: ObserverLog, frame: Frame) -> bool {
    &&& new.processed == old.processed
    &&& new.emitted.len() == old.emitted.len() + 1
    &&& new.emitted.drop_last() == old.emitted
    &&& same_frame(frame, new.emitted.last())
}

/// `new` is `old` with `frame` recorded as taken in and `out` recorded as
/// sent out.
pub open spec fn recorded_both(old: ObserverLog, new: ObserverLog, frame: Frame, out: Frame) -> bool {
    &&& new.processed.len() == old.processed.len() + 1
    &&& new.processed.drop_last() == old.processed
    &&& same_frame(frame, new.processed.last())
    &&& new.emitted.len() == old.emitted.len() + 1
    &&& new.emitted.drop_last() == old.emitted
    &&& same_frame(out, new.emitted.last())
}

/// What the echo processor passes on for `f`: an input text becomes an output
/// text with the same content; any other frame is passed on as it is.
pub open spec fn echoed(f: Frame) -> Frame {
    match f {
        Frame::DataFrame(DataFrame::InputTextFrame(s)) => Frame::DataFrame(DataFrame::OutputTextFrame(s)),
        _ => f,
    }
}

/// Echoing twice is echoing once: what the echo processor passes on is never
/// an input text, so a second echo passes it on unchanged.
pub proof fn lemma_echo_is_idempotent(f: Frame)
    ensures
        echoed(echoed(f)) == echoed(f),
        !(echoed(f) matches Frame::DataFrame(DataFrame::InputTextFrame(_))),
{
}

/// The echo processor changes input texts only: an input text becomes an
/// output text with the same content, and every other frame, whatever it is,
/// is passed on exactly as it came.
pub proof fn lemma_echo_changes_only_input_texts(f: Frame)
    ensures
        f matches Frame::DataFrame(DataFrame::InputTextFrame(s)) ==> echoed(f) == Frame::DataFrame(
            DataFrame::OutputTextFrame(s),
        ),
        !(f matches Frame::DataFrame(DataFrame::InputTextFrame(_))) ==> echoed(f) == f,
{
}

/// The logs of a list of observers.
pub open spec fn logs(observers: Seq<Observer>) -> Seq<ObserverLog> {
    observers.map_values(|o: Observer| o@)
}

/// Every observer records `frame` as taken in.
fn record_processed_all(observers: &mut Vec<Observer>, frame: &Frame)
    ensures
        final(observers)@.len() == old(observers)@.len(),
        forall|i: int|
            0 <= i < old(observers)@.len() ==> recorded_processed(
                #[trigger] old(observers)@[i]@,
                final(observers)@[i]@,
                *frame,
            ),
{
    let ghost before = observers@;
    let n = observers.len();
    let mut i: usize = 0;
    while i < n
        invariant
            i <= n == observers@.len() == before.len(),
            forall|j: int| 0 <= j < i ==> recorded_processed(#[trigger] before[j]@, observers@[j]@, *frame),
            forall|j: int| i <= j < n ==> #[trigger] observers@[j] == before[j],
        decreases n - i,
    {
        let copy = frame.clone();
        observers[i].record_processed(copy);
        assert(observers@[i as int]@.processed.drop_last() =~= before[i as int]@.processed);
        i = i + 1;
    }
}

/// Every observer records `frame` as sent out.
fn record_emitted_all(observers: &mut Vec<Observer>, frame: &Frame)
    ensures
        final(observers)@.len() == old(observers)@.len(),
        forall|i: int|
            0 <= i < old(observers)@.len() ==> recorded_emitted(
                #[trigger] old(observers)@[i]@,
                final(observers)@[i]@,
                *frame,
            ),
{
    let ghost before = observers@;
    let n = observers.len();
    let mut i: usize = 0;
    while i < n
        invariant
            i <= n == observers@.len() == before.len(),
            forall|j: int| 0 <= j < i ==> recorded_emitted(#[trigger] before[j]@, observers@[j]@, *frame),
            forall|j: int| i <= j < n ==> #[trigger] observers@[j] == before[j],
        decreases n - i,
    {
        let copy = frame.clone();
        observers[i].record_emitted(copy);
        assert(observers@[i as int]@.emitted.drop_last() =~= before[i as int]@.emitted);
        i = i + 1;
    }
}

/// The first processor of a pipeline: it emits each frame it gets.
#[derive(Debug)]
pub struct InputProcessor {
    observers: Vec<Observer>,
}

impl InputProcessor {
    /// The logs of the processor's observers, in the order they were added.
    pub closed spec fn observer_logs(&self) -> Seq<ObserverLog> {
        logs(self.observers@)
    }

    /// A processor without observers.
    pub fn new() -> (p: Self)
        ensures
            p.observer_logs() == Seq::<ObserverLog>::empty(),
    {
        let p = InputProcessor { observers: Vec::new() };
        assert(p.observer_logs() =~= Seq::<ObserverLog>::empty());
        p
    }

    /// Adds an observer that sees what the processor does from now on.
    pub fn add_observer(&mut self, observer: Observer)
        ensures
            final(self).observer_logs() == old(self).observer_logs().push(observer@),
    {
        self.observers.push(observer);
        assert(self.observer_logs() =~= old(self).observer_logs().push(observer@));
    }

    /// The processor's observers, in the order they were added.
    pub fn observers(&self) -> (r: &Vec<Observer>)
        ensures
            logs(r@) == self.observer_logs(),
    {
        &self.observers
    }

    /// Passes the frame on as it is; every observer records it as sent out.
    /// A system frame is also taken in: every observer first records it as
    /// taken in.
    pub fn handle(&mut self, frame: Frame) -> (r: Option<Frame>)
        ensures
            r == Some(frame),
            final(self).observer_logs().len() == old(self).observer_logs().len(),
            frame is SystemFrame ==> forall|i: int|
                0 <= i < old(self).observer_logs().len() ==> recorded_both(
                    #[trigger] old(self).observer_logs()[i],
                    final(self).observer_logs()[i],
                    frame,
                    frame,
                ),
            frame is DataFrame ==> forall|i: int|
                0 <= i < old(self).observer_logs().len() ==> recorded_emitted(
                    #[trigger] old(self).observer_logs()[i],
                    final(self).observer_logs()[i],
                    frame,
                ),
    {
        let ghost before = self.observers@;
        if let Frame::SystemFrame(_) = frame {
            record_processed_all(&mut self.observers, &frame);
        }
        let ghost middle = self.observers@;
        record_emitted_all(&mut self.observers, &frame);
        proof {
            if frame is SystemFrame {
                assert forall|i: int| 0 <= i < old(self).observer_logs().len() implies recorded_both(
                    #[trigger] old(self).observer_logs()[i],
                    self.observer_logs()[i],
                    frame,
                    frame,
                ) by {
                    assert(old(self).observer_logs()[i] == before[i]@);
                    assert(self.observer_logs()[i] == self.observers@[i]@);
                    assert(recorded_processed(before[i]@, middle[i]@, frame));
                    assert(recorded_emitted(middle[i]@, self.observers@[i]@, frame));
                }
            } else {
                assert(middle == before);
                assert forall|i: int| 0 <= i < old(self).observer_logs().len() implies recorded_emitted(
                    #[trigger] old(self).observer_logs()[i],
                    self.observer_logs()[i],
                    frame,
                ) by {
                    assert(old(self).observer_logs()[i] == before[i]@);
                    assert(self.observer_logs()[i] == self.observers@[i]@);
                }
            }
        }
        Some(frame)
    }
}

/// Turns each input text into an output text with the same content.
#[derive(Debug)]
pub struct EchoProcessor {
    observers: Vec<Observer>,
}

impl EchoProcessor {
    /// The logs of the processor's observers, in the order they were added.
    pub closed spec fn observer_logs(&self) -> Seq<ObserverLog> {
        logs(self.observers@)
    }

    /// A processor without observers.
    pub fn new() -> (p: Self)
        ensures
            p.observer_logs() == Seq::<ObserverLog>::empty(),
    {
        let p = EchoProcessor { observers: Vec::new() };
        assert(p.observer_logs() =~= Seq::<ObserverLog>::empty());
        p
    }

    /// Adds an observer that sees what the processor does from now on.
    pub fn add_observer(&mut self, observer: Observer)
        ensures
            final(self).observer_logs() == old(self).observer_logs().push(observer@),
    {
        self.observers.push(observer);
        assert(self.observer_logs() =~= old(self).observer_logs().push(observer@));
    }

    /// The processor's observers, in the order they were added.
    pub fn observers(&self) -> (r: &Vec<Observer>)
        ensures
            logs(r@) == self.observer_logs(),
    {
        &self.observers
    }

    /// Every observer records the frame as taken in. An input text becomes an
    /// output text with the same content, which every observer records as sent
    /// out; any other frame passes on unchanged and is not recorded as sent out.
    pub fn handle(&mut self, frame: Frame) -> (r: Option<Frame>)
        ensures
            final(self).observer_logs().len() == old(self).observer_logs().len(),
            r == Some(echoed(frame)),
            match frame {
                Frame::DataFrame(DataFrame::InputTextFrame(s)) => {
                    forall|i: int|
                        0 <= i < old(self).observer_logs().len() ==> recorded_both(
                            #[trigger] old(self).observer_logs()[i],
                            final(self).observer_logs()[i],
                            frame,
                            r->Some_0,
                        )
                },
                _ => {
                    forall|i: int|
                        0 <= i < old(self).observer_logs().len() ==> recorded_processed(
                            #[trigger] old(self).observer_logs()[i],
                            final(self).observer_logs()[i],
                            frame,
                        )
                },
            },
    {
        let ghost before = self.observers@;
        record_processed_all(&mut self.observers, &frame);
        let ghost middle = self.observers@;
        match frame {
            Frame::DataFrame(DataFrame::InputTextFrame(s)) => {
                let out = Frame::DataFrame(DataFrame::OutputTextFrame(s));
                record_emitted_all(&mut self.observers, &out);
                let result = Some(out);
                assert forall|i: int| 0 <= i < old(self).observer_logs().len() implies recorded_both(
                    #[trigger] old(self).observer_logs()[i],
                    self.observer_logs()[i],
                    frame,
                    result->Some_0,
                ) by {
                    assert(old(self).observer_logs()[i] == before[i]@);
                    assert(self.observer_logs()[i] == self.observers@[i]@);
                    assert(recorded_processed(before[i]@, middle[i]@, frame));
                    assert(recorded_emitted(middle[i]@, self.observers@[i]@, result->Some_0));
                }
                result
            },
            other => Some(other),
        }
    }
}

/// The last processor of a pipeline: it passes each frame on.
#[derive(Debug)]
pub struct OutputProcessor {
    observers: Vec<Observer>,
}

impl OutputProcessor {
    /// The logs of the processor's observers, in the order they were added.
    pub closed spec fn observer_logs(&self) -> Seq<ObserverLog> {
        logs(self.observers@)
    }

    /// A processor without observers.
    pub fn new() -> (p: Self)
        ensures
            p.observer_logs() == Seq::<ObserverLog>::empty(),
    {
        let p = OutputProcessor { observers: Vec::new() };
        assert(p.observer_logs() =~= Seq::<ObserverLog>::empty());
        p
    }

    /// Adds an observer that sees what the processor does from now on.
    pub fn add_observer(&mut self, observer: Observer)
        ensures
            final(self).observer_logs() == old(self).observer_logs().push(observer@),
    {
        self.observers.push(observer);
        assert(self.observer_logs() =~= old(self).observer_logs().push(observer@));
    }

    /// The processor's observers, in the order they were added.
    pub fn observers(&self) -> (r: &Vec<Observer>)
        ensures
            logs(r@) == self.observer_logs(),
    {
        &self.observers
    }

    /// Passes the frame on; every observer records it as taken in.
    pub fn handle(&mut self, frame: Frame) -> (r: Option<Frame>)
        ensures
            r == Some(frame),
            final(self).observer_logs().len() == old(self).observer_logs().len(),
            forall|i: int|
                0 <= i < old(self).observer_logs().len() ==> recorded_processed(
                    #[trigger] old(self).observer_logs()[i],
                    final(self).observer_logs()[i],
                    frame,
                ),
    {
        record_processed_all(&mut self.observers, &frame);
        Some(frame)
    }
}

} // verus!
