use vstd::prelude::*;
use crate::frame::frame::Frame;
use crate::frame_processor::frame_processor::{DefaultFrameProcessor, ProcessorLog};

verus! {

broadcast use vstd::seq_lib::group_seq_lib_default;

/// Holds of the frames that travel towards the sink.
pub open spec fn downstream_pred() -> spec_fn(Frame) -> bool {
    |f: Frame| f is Downstream
}

/// Holds of the frames that travel towards the source.
pub open spec fn upstream_pred() -> spec_fn(Frame) -> bool {
    |f: Frame| f is Upstream
}

/// The downstream frames of `s`, in order.
pub open spec fn downstream_in(s: Seq<Frame>) -> Seq<Frame> {
    s.filter(downstream_pred())
}

/// The upstream frames of `s`, in order.
pub open spec fn upstream_in(s: Seq<Frame>) -> Seq<Frame> {
    s.filter(upstream_pred())
}

/// The frames of `s` from position `count` on: those not yet looked at.
pub open spec fn since(s: Seq<Frame>, count: nat) -> Seq<Frame> {
    s.subrange(count as int, s.len() as int)
}

/// The frames of `s` from `from` on that travel in the chosen direction.
pub open spec fn select_since(s: Seq<Frame>, from: nat, downstream: bool) -> Seq<Frame> {
    if downstream {
        downstream_in(since(s, from))
    } else {
        upstream_in(since(s, from))
    }
}

/// How far the pipeline has looked into each processor's frames.
pub struct ForwarderView {
    pub source_count: nat,
    pub sink_count: nat,
    pub processor_counts: Seq<nat>,
}

/// Remembers, for the source, the sink and each processor, how many of its
/// frames have already been forwarded, so that each frame is forwarded once.
#[derive(Debug)]
pub struct Forwarder {
    source_processed_count: usize,
    sink_processed_count: usize,
    processor_processed_counts: Vec<usize>,
}

impl View for Forwarder {
    type V = ForwarderView;

    closed spec fn view(&self) -> ForwarderView {
        ForwarderView {
            source_count: self.source_processed_count as nat,
            sink_count: self.sink_processed_count as nat,
            processor_counts: self.processor_processed_counts@.map_values(|c: usize| c as nat),
        }
    }
}

/// The frames of `frames` from position `from` on that travel in the chosen direction.
fn frames_since_in_direction(frames: &Vec<Frame>, from: usize, downstream: bool) -> (r: Vec<Frame>)
    requires
        from <= frames@.len(),
    ensures
        r@ == select_since(frames@, from as nat, downstream),
{
    let mut r: Vec<Frame> = Vec::new();
    let mut i = from;
    while i < frames.len()
        invariant
            from <= i <= frames@.len(),
            r@ == select_since(frames@.subrange(0, i as int), from as nat, downstream),
        decreases frames@.len() - i,
    {
        let f = frames[i];
        proof {
            let pre = frames@.subrange(0, i as int);
            let post = frames@.subrange(0, i + 1);
            assert(since(post, from as nat) =~= since(pre, from as nat).push(f));
            since(pre, from as nat).lemma_filter_push(f, downstream_pred());
            since(pre, from as nat).lemma_filter_push(f, upstream_pred());
        }
        if f.is_downstream() == downstream {
            r.push(f);
        }
        i = i + 1;
    }
    assert(frames@.subrange(0, frames@.len() as int) =~= frames@);
    r
}

/// Taking a source's new frames in two steps, first up to `mid` and then up
/// to the end, gives exactly the frames of taking them in one step: none is
/// lost and none is taken twice. The same holds for the sink and each processor.
pub proof fn lemma_taking_in_steps_loses_nothing(s: Seq<Frame>, from: nat, mid: nat)
    requires
        from <= mid <= s.len(),
    ensures
        downstream_in(since(s, from)) == downstream_in(since(s.subrange(0, mid as int), from))
            + downstream_in(since(s, mid)),
        upstream_in(since(s, from)) == upstream_in(since(s.subrange(0, mid as int), from)) + upstream_in(
            since(s, mid),
        ),
{
    let a = since(s.subrange(0, mid as int), from);
    let b = since(s, mid);
    assert(since(s, from) =~= a + b);
    Seq::filter_distributes_over_add(a, b, downstream_pred());
    Seq::filter_distributes_over_add(a, b, upstream_pred());
}

impl Forwarder {
    /// Nothing has been forwarded yet and no processor is known.
    pub fn new() -> (f: Self)
        ensures
            f@.source_count == 0,
            f@.sink_count == 0,
            f@.processor_counts == Seq::<nat>::empty(),
    {
        let f = Forwarder {
            source_processed_count: 0,
            sink_processed_count: 0,
            processor_processed_counts: Vec::new(),
        };
        assert(f@.processor_counts =~= Seq::<nat>::empty());
        f
    }

    /// Makes room for one counter per processor: when the number of counters
    /// differs from `num_processors`, they are all reset to zero.
    pub fn prepare(&mut self, num_processors: usize)
        ensures
            final(self)@.source_count == old(self)@.source_count,
            final(self)@.sink_count == old(self)@.sink_count,
            final(self)@.processor_counts == (if old(self)@.processor_counts.len() == num_processors {
                old(self)@.processor_counts
            } else {
                Seq::new(num_processors as nat, |i: int| 0nat)
            }),
    {
        if self.processor_processed_counts.len() != num_processors {
            let mut counts: Vec<usize> = Vec::new();
            for i in 0..num_processors
                invariant
                    counts@.len() == i,
                    forall|j: int| 0 <= j < i ==> counts@[j] == 0,
            {
                counts.push(0);
            }
            self.processor_processed_counts = counts;
            assert(self@.processor_counts =~= Seq::new(num_processors as nat, |i: int| 0nat));
        }
    }

    /// How many of the source's frames have been looked at.
    pub fn source_count(&self) -> (c: usize)
        ensures
            c as nat == self@.source_count,
    {
        self.source_processed_count
    }

    /// How many of the sink's frames have been looked at.
    pub fn sink_count(&self) -> (c: usize)
        ensures
            c as nat == self@.sink_count,
    {
        self.sink_processed_count
    }

    /// How many processors have a counter.
    pub fn num_processor_counts(&self) -> (n: usize)
        ensures
            n as nat == self@.processor_counts.len(),
    {
        self.processor_processed_counts.len()
    }

    /// How many of the frames pushed by processor `index` have been looked at.
    pub fn processor_count(&self, index: usize) -> (c: usize)
        requires
            index < self@.processor_counts.len(),
        ensures
            c as nat == self@.processor_counts[index as int],
    {
        self.processor_processed_counts[index]
    }

    /// Takes the frames the source received since the last call and returns
    /// those that travel downstream; the source's counter moves to the end.
    pub fn take_from_source(&mut self, received: &Vec<Frame>) -> (r: Vec<Frame>)
        requires
            old(self)@.source_count <= received@.len(),
        ensures
            r@ == downstream_in(since(received@, old(self)@.source_count)),
            final(self)@.source_count == received@.len(),
            final(self)@.sink_count == old(self)@.sink_count,
            final(self)@.processor_counts == old(self)@.processor_counts,
    {
        let r = frames_since_in_direction(received, self.source_processed_count, true);
        self.source_processed_count = received.len();
        r
    }

    /// Takes the frames the sink received since the last call and returns
    /// those that travel upstream; the sink's counter moves to the end.
    pub fn take_from_sink(&mut self, received: &Vec<Frame>) -> (r: Vec<Frame>)
        requires
            old(self)@.sink_count <= received@.len(),
        ensures
            r@ == upstream_in(since(received@, old(self)@.sink_count)),
            final(self)@.sink_count == received@.len(),
            final(self)@.source_count == old(self)@.source_count,
            final(self)@.processor_counts == old(self)@.processor_counts,
    {
        let r = frames_since_in_direction(received, self.sink_processed_count, false);
        self.sink_processed_count = received.len();
        r
    }

    /// Takes the frames that processor `index` pushed since the last call and
    /// splits them into those that travel downstream and those that travel
    /// upstream; that processor's counter moves to the end.
    pub fn take_from_processor(&mut self, index: usize, pushed: &Vec<Frame>) -> (r: (Vec<Frame>, Vec<Frame>))
        requires
            index < old(self)@.processor_counts.len(),
            old(self)@.processor_counts[index as int] <= pushed@.len(),
        ensures
            r.0@ == downstream_in(since(pushed@, old(self)@.processor_counts[index as int])),
            r.1@ == upstream_in(since(pushed@, old(self)@.processor_counts[index as int])),
            final(self)@.processor_counts == old(self)@.processor_counts.update(index as int, pushed@.len()),
            final(self)@.source_count == old(self)@.source_count,
            final(self)@.sink_count == old(self)@.sink_count,
    {
        let from = self.processor_processed_counts[index];
        let down = frames_since_in_direction(pushed, from, true);
        let up = frames_since_in_direction(pushed, from, false);
        self.processor_processed_counts.set(index, pushed.len());
        assert(self@.processor_counts =~= old(self)@.processor_counts.update(index as int, pushed@.len()));
        (down, up)
    }
}


/// One thing a round of forwarding asks for.
#[derive(Debug, Clone, Copy, PartialEq, Eq, Structural)]
pub enum Delivery {
    /// The processor at this position processes the frame.
    Process(usize, Frame),
    /// The frame is pushed into the sink.
    PushSink(Frame),
    /// The frame is pushed into the source.
    PushSource(Frame),
}

/// `fs` handed to the first `n` processors: the first processes all of them,
/// in order, then the second, and so on.
pub open spec fn process_everywhere(fs: Seq<Frame>, n: nat) -> Seq<Delivery>
    decreases n,
{
    if n == 0 {
        Seq::empty()
    } else {
        process_everywhere(fs, (n - 1) as nat) + fs.map_values(|f: Frame| Delivery::Process((n - 1) as usize, f))
    }
}

/// Each of `fs`, in order, pushed into the sink.
pub open spec fn pushed_into_sink(fs: Seq<Frame>) -> Seq<Delivery> {
    fs.map_values(|f: Frame| Delivery::PushSink(f))
}

/// Each of `fs`, in order, pushed into the source.
pub open spec fn pushed_into_source(fs: Seq<Frame>) -> Seq<Delivery> {
    fs.map_values(|f: Frame| Delivery::PushSource(f))
}

/// Appends `fs` handed to each of the first `n` processors.
fn append_process_everywhere(out: &mut Vec<Delivery>, fs: &Vec<Frame>, n: usize)
    ensures
        final(out)@ == old(out)@ + process_everywhere(fs@, n as nat),
{
    for i in 0..n
        invariant
            out@ == old(out)@ + process_everywhere(fs@, i as nat),
    {
        let ghost start = out@;
        for j in 0..fs.len()
            invariant
                start == old(out)@ + process_everywhere(fs@, i as nat),
                out@ == start + fs@.subrange(0, j as int).map_values(|f: Frame| Delivery::Process(i, f)),
        {
            out.push(Delivery::Process(i, fs[j]));
            assert(fs@.subrange(0, j + 1).map_values(|f: Frame| Delivery::Process(i, f)) =~= fs@.subrange(
                0,
                j as int,
            ).map_values(|f: Frame| Delivery::Process(i, f)).push(Delivery::Process(i, fs@[j as int])));
        }
        assert(fs@.subrange(0, fs@.len() as int) =~= fs@);
        assert(process_everywhere(fs@, (i + 1) as nat) =~= process_everywhere(fs@, i as nat) + fs@.map_values(
            |f: Frame| Delivery::Process(i, f),
        ));
    }
}

/// Appends each of `fs`, in order, pushed into the sink or, where `to_sink`
/// is false, into the source.
fn append_pushes(out: &mut Vec<Delivery>, fs: &Vec<Frame>, to_sink: bool)
    ensures
        final(out)@ == old(out)@ + (if to_sink {
            pushed_into_sink(fs@)
        } else {
            pushed_into_source(fs@)
        }),
{
    for j in 0..fs.len()
        invariant
            out@ == old(out)@ + (if to_sink {
                pushed_into_sink(fs@.subrange(0, j as int))
            } else {
                pushed_into_source(fs@.subrange(0, j as int))
            }),
    {
        let f = fs[j];
        if to_sink {
            out.push(Delivery::PushSink(f));
        } else {
            out.push(Delivery::PushSource(f));
        }
        assert(pushed_into_sink(fs@.subrange(0, j + 1)) =~= pushed_into_sink(fs@.subrange(0, j as int)).push(
            Delivery::PushSink(f),
        ));
        assert(pushed_into_source(fs@.subrange(0, j + 1)) =~= pushed_into_source(fs@.subrange(0, j as int)).push(
            Delivery::PushSource(f),
        ));
    }
    assert(fs@.subrange(0, fs@.len() as int) =~= fs@);
}

impl Forwarder {
    /// The first step of a round: the source's new downstream frames go to
    /// each of `num_processors` processors in turn, then into the sink. The
    /// source's counter moves to the end, as with `take_from_source`.
    pub fn plan_from_source(&mut self, num_processors: usize, received: &Vec<Frame>) -> (r: Vec<Delivery>)
        requires
            old(self)@.source_count <= received@.len(),
        ensures
            r@ == process_everywhere(downstream_in(since(received@, old(self)@.source_count)), num_processors as nat)
                + pushed_into_sink(downstream_in(since(received@, old(self)@.source_count))),
            final(self)@.source_count == received@.len(),
            final(self)@.sink_count == old(self)@.sink_count,
            final(self)@.processor_counts == old(self)@.processor_counts,
    {
        let down = self.take_from_source(received);
        let mut r: Vec<Delivery> = Vec::new();
        append_process_everywhere(&mut r, &down, num_processors);
        append_pushes(&mut r, &down, true);
        r
    }

    /// The second step of a round: the sink's new upstream frames go to each
    /// of `num_processors` processors in turn, then into the source. The
    /// sink's counter moves to the end, as with `take_from_sink`.
    pub fn plan_from_sink(&mut self, num_processors: usize, received: &Vec<Frame>) -> (r: Vec<Delivery>)
        requires
            old(self)@.sink_count <= received@.len(),
        ensures
            r@ == process_everywhere(upstream_in(since(received@, old(self)@.sink_count)), num_processors as nat)
                + pushed_into_source(upstream_in(since(received@, old(self)@.sink_count))),
            final(self)@.sink_count == received@.len(),
            final(self)@.source_count == old(self)@.source_count,
            final(self)@.processor_counts == old(self)@.processor_counts,
    {
        let up = self.take_from_sink(received);
        let mut r: Vec<Delivery> = Vec::new();
        append_process_everywhere(&mut r, &up, num_processors);
        append_pushes(&mut r, &up, false);
        r
    }

    /// The last step of a round, for processor `index`: the frames it pushed
    /// since it was last looked at go, downstream ones first, into the sink,
    /// then the upstream ones into the source. Its counter moves to the end,
    /// as with `take_from_processor`.
    pub fn plan_from_processor(&mut self, index: usize, pushed: &Vec<Frame>) -> (r: Vec<Delivery>)
        requires
            index < old(self)@.processor_counts.len(),
            old(self)@.processor_counts[index as int] <= pushed@.len(),
        ensures
            r@ == pushed_into_sink(downstream_in(since(pushed@, old(self)@.processor_counts[index as int])))
                + pushed_into_source(upstream_in(since(pushed@, old(self)@.processor_counts[index as int]))),
            final(self)@.processor_counts == old(self)@.processor_counts.update(index as int, pushed@.len()),
            final(self)@.source_count == old(self)@.source_count,
            final(self)@.sink_count == old(self)@.sink_count,
    {
        let (down, up) = self.take_from_processor(index, pushed);
        let mut r: Vec<Delivery> = Vec::new();
        append_pushes(&mut r, &down, true);
        append_pushes(&mut r, &up, false);
        r
    }
}

/// A processor's log after it processed each of `fs`, in order.
pub open spec fn log_process_all(l: ProcessorLog, fs: Seq<Frame>) -> ProcessorLog {
    ProcessorLog {
        frame_count: l.frame_count + fs.len(),
        received: l.received + fs,
        pushed: l.pushed,
        processed: l.processed + fs,
    }
}

/// A processor's log after each of `fs` was pushed into it, in order.
pub open spec fn log_push_all(l: ProcessorLog, fs: Seq<Frame>) -> ProcessorLog {
    ProcessorLog {
        frame_count: l.frame_count + fs.len(),
        received: l.received + fs,
        pushed: l.pushed + fs,
        processed: l.processed,
    }
}

/// What the pipeline consists of, and how far it has forwarded.
pub struct PipelineView {
    pub source: ProcessorLog,
    pub sink: ProcessorLog,
    pub processors: Seq<ProcessorLog>,
    pub forwarded: ForwarderView,
}

/// The frames that the first `n` processors pushed since they were last
/// looked at and that travel downstream, processor by processor.
pub open spec fn processor_downstream(v: PipelineView, n: nat) -> Seq<Frame>
    decreases n,
{
    if n == 0 {
        Seq::empty()
    } else {
        processor_downstream(v, (n - 1) as nat) + downstream_in(
            since(v.processors[n - 1].pushed, v.forwarded.processor_counts[n - 1]),
        )
    }
}

/// The frames that the first `n` processors pushed since they were last
/// looked at and that travel upstream, processor by processor.
pub open spec fn processor_upstream(v: PipelineView, n: nat) -> Seq<Frame>
    decreases n,
{
    if n == 0 {
        Seq::empty()
    } else {
        processor_upstream(v, (n - 1) as nat) + upstream_in(
            since(v.processors[n - 1].pushed, v.forwarded.processor_counts[n - 1]),
        )
    }
}

/// The downstream frames that reached the source since it was last looked at.
pub open spec fn source_batch(v: PipelineView) -> Seq<Frame> {
    downstream_in(since(v.source.received, v.forwarded.source_count))
}

/// The upstream frames that reached the sink since it was last looked at.
pub open spec fn sink_batch(v: PipelineView) -> Seq<Frame> {
    upstream_in(since(v.sink.received, v.forwarded.sink_count))
}

/// No counter points past the frames it counts, and there is one counter per processor.
pub open spec fn counts_in_range(v: PipelineView) -> bool {
    &&& v.forwarded.source_count <= v.source.received.len()
    &&& v.forwarded.sink_count <= v.sink.received.len()
    &&& v.forwarded.processor_counts.len() == v.processors.len()
    &&& forall|i: int|
        0 <= i < v.processors.len() ==> #[trigger] v.forwarded.processor_counts[i]
            <= v.processors[i].pushed.len()
}

/// One round of forwarding:
/// - the new downstream frames of the source are processed by every processor,
///   in order, and pushed into the sink;
/// - the new upstream frames of the sink are processed by every processor and
///   pushed into the source;
/// - the new frames each processor pushed go, by direction, into the sink
///   (downstream) or the source (upstream), processor by processor;
/// - every counter moves to the end of what it has looked at.
pub open spec fn tick(v: PipelineView) -> PipelineView {
    let n = v.processors.len();
    let down = source_batch(v);
    let up = sink_batch(v);
    PipelineView {
        source: log_push_all(v.source, up + processor_upstream(v, n)),
        sink: log_push_all(v.sink, down + processor_downstream(v, n)),
        processors: Seq::new(n, |i: int| log_process_all(v.processors[i], down + up)),
        forwarded: ForwarderView {
            source_count: v.source.received.len(),
            sink_count: v.sink.received.len() + down.len(),
            processor_counts: Seq::new(n, |i: int| v.processors[i].pushed.len()),
        },
    }
}

/// No frame counter overflows during one round of forwarding.
pub open spec fn tick_fits(v: PipelineView) -> bool {
    let n = v.processors.len();
    let down = source_batch(v);
    let up = sink_batch(v);
    &&& v.source.frame_count + up.len() + processor_upstream(v, n).len() <= u32::MAX
    &&& v.sink.frame_count + down.len() + processor_downstream(v, n).len() <= u32::MAX
    &&& forall|i: int|
        0 <= i < n ==> #[trigger] v.processors[i].frame_count + down.len() + up.len() <= u32::MAX
}

/// A pipeline of processors between a source and a sink. Frames pushed into
/// the source that travel downstream go through every processor to the sink;
/// frames pushed into the sink that travel upstream go through every processor
/// to the source; frames a processor pushes go to the sink or the source by
/// their direction.
#[derive(Debug)]
pub struct Pipeline {
    frame_processors: Vec<DefaultFrameProcessor>,
    source: DefaultFrameProcessor,
    sink: DefaultFrameProcessor,
    forwarder: Forwarder,
}

impl View for Pipeline {
    type V = PipelineView;

    closed spec fn view(&self) -> PipelineView {
        PipelineView {
            source: self.source@,
            sink: self.sink@,
            processors: self.frame_processors@.map_values(|p: DefaultFrameProcessor| p@),
            forwarded: self.forwarder@,
        }
    }
}

/// Processes each of `frames`, in order.
fn process_all(p: &mut DefaultFrameProcessor, frames: &Vec<Frame>)
    requires
        old(p)@.frame_count + frames@.len() <= u32::MAX,
    ensures
        final(p)@ == log_process_all(old(p)@, frames@),
        old(p).wf() ==> final(p).wf(),
{
    for i in 0..frames.len()
        invariant
            old(p)@.frame_count + frames@.len() <= u32::MAX,
            p@ == log_process_all(old(p)@, frames@.subrange(0, i as int)),
            old(p).wf() ==> p.wf(),
    {
        p.process_frame(frames[i]);
        assert(frames@.subrange(0, i + 1) =~= frames@.subrange(0, i as int).push(frames@[i as int]));
    }
    assert(frames@.subrange(0, frames@.len() as int) =~= frames@);
}

/// Pushes each of `frames` into `p`, in order.
fn push_all(p: &mut DefaultFrameProcessor, frames: &Vec<Frame>)
    requires
        old(p)@.frame_count + frames@.len() <= u32::MAX,
    ensures
        final(p)@ == log_push_all(old(p)@, frames@),
        old(p).wf() ==> final(p).wf(),
{
    for i in 0..frames.len()
        invariant
            old(p)@.frame_count + frames@.len() <= u32::MAX,
            p@ == log_push_all(old(p)@, frames@.subrange(0, i as int)),
            old(p).wf() ==> p.wf(),
    {
        p.push_frame(frames[i]);
        assert(frames@.subrange(0, i + 1) =~= frames@.subrange(0, i as int).push(frames@[i as int]));
    }
    assert(frames@.subrange(0, frames@.len() as int) =~= frames@);
}


/// Length of the downstream frames of the first `k` processors grows with `k`.
proof fn lemma_processor_downstream_len_mono(v: PipelineView, k: nat, n: nat)
    requires
        k <= n,
    ensures
        processor_downstream(v, k).len() <= processor_downstream(v, n).len(),
    decreases n,
{
    if k < n {
        lemma_processor_downstream_len_mono(v, k, (n - 1) as nat);
    }
}

/// Length of the upstream frames of the first `k` processors grows with `k`.
proof fn lemma_processor_upstream_len_mono(v: PipelineView, k: nat, n: nat)
    requires
        k <= n,
    ensures
        processor_upstream(v, k).len() <= processor_upstream(v, n).len(),
    decreases n,
{
    if k < n {
        lemma_processor_upstream_len_mono(v, k, (n - 1) as nat);
    }
}

/// Among the downstream frames of a sequence there is none that travels upstream.
pub proof fn lemma_no_upstream_in_downstream(s: Seq<Frame>)
    ensures
        upstream_in(downstream_in(s)) == Seq::<Frame>::empty(),
    decreases s.len(),
{
    reveal(Seq::filter);
    if s.len() > 0 {
        lemma_no_upstream_in_downstream(s.drop_last());
        downstream_in(s.drop_last()).lemma_filter_push(s.last(), upstream_pred());
    }
    assert(upstream_in(downstream_in(s)) =~= Seq::<Frame>::empty());
}

/// Among the upstream frames of a sequence there is none that travels downstream.
pub proof fn lemma_no_downstream_in_upstream(s: Seq<Frame>)
    ensures
        downstream_in(upstream_in(s)) == Seq::<Frame>::empty(),
    decreases s.len(),
{
    reveal(Seq::filter);
    if s.len() > 0 {
        lemma_no_downstream_in_upstream(s.drop_last());
        upstream_in(s.drop_last()).lemma_filter_push(s.last(), downstream_pred());
    }
    assert(downstream_in(upstream_in(s)) =~= Seq::<Frame>::empty());
}

/// The upstream frames the processors pushed hold no downstream frame.
proof fn lemma_processor_upstream_has_no_downstream(v: PipelineView, n: nat)
    ensures
        downstream_in(processor_upstream(v, n)) == Seq::<Frame>::empty(),
    decreases n,
{
    if n > 0 {
        let m = (n - 1) as nat;
        lemma_processor_upstream_has_no_downstream(v, m);
        lemma_no_downstream_in_upstream(since(v.processors[m as int].pushed, v.forwarded.processor_counts[m as int]));
        Seq::filter_distributes_over_add(
            processor_upstream(v, m),
            upstream_in(since(v.processors[m as int].pushed, v.forwarded.processor_counts[m as int])),
            downstream_pred(),
        );
    }
    assert(downstream_in(processor_upstream(v, n)) =~= Seq::<Frame>::empty());
}

/// The downstream frames the processors pushed hold no upstream frame.
proof fn lemma_processor_downstream_has_no_upstream(v: PipelineView, n: nat)
    ensures
        upstream_in(processor_downstream(v, n)) == Seq::<Frame>::empty(),
    decreases n,
{
    if n > 0 {
        let m = (n - 1) as nat;
        lemma_processor_downstream_has_no_upstream(v, m);
        lemma_no_upstream_in_downstream(since(v.processors[m as int].pushed, v.forwarded.processor_counts[m as int]));
        Seq::filter_distributes_over_add(
            processor_downstream(v, m),
            downstream_in(since(v.processors[m as int].pushed, v.forwarded.processor_counts[m as int])),
            upstream_pred(),
        );
    }
    assert(upstream_in(processor_downstream(v, n)) =~= Seq::<Frame>::empty());
}

/// When every processor's counter is at the end of its pushed frames, the
/// processors have nothing left to forward.
pub proof fn lemma_caught_up_processors_forward_nothing(v: PipelineView, n: nat)
    requires
        n <= v.processors.len(),
        v.forwarded.processor_counts.len() == v.processors.len(),
        forall|i: int|
            0 <= i < v.processors.len() ==> #[trigger] v.forwarded.processor_counts[i]
                == v.processors[i].pushed.len(),
    ensures
        processor_downstream(v, n) == Seq::<Frame>::empty(),
        processor_upstream(v, n) == Seq::<Frame>::empty(),
    decreases n,
{
    reveal(Seq::filter);
    if n > 0 {
        let m = (n - 1) as nat;
        lemma_caught_up_processors_forward_nothing(v, m);
        let rest = since(v.processors[m as int].pushed, v.forwarded.processor_counts[m as int]);
        assert(rest =~= Seq::<Frame>::empty());
        assert(processor_downstream(v, n) =~= Seq::<Frame>::empty());
        assert(processor_upstream(v, n) =~= Seq::<Frame>::empty());
    }
}

/// A round of forwarding keeps every counter within the frames it counts.
pub proof fn lemma_tick_keeps_counts_in_range(v: PipelineView)
    requires
        counts_in_range(v),
    ensures
        counts_in_range(tick(v)),
{
}

/// Forwarding sends into the sink only frames that travel downstream, and
/// into the source only frames that travel upstream.
pub proof fn lemma_tick_respects_direction(v: PipelineView)
    ensures
        ({
            let t = tick(v);
            &&& forall|i: int|
                v.sink.received.len() <= i < t.sink.received.len() ==> #[trigger] t.sink.received[i] is Downstream
            &&& forall|i: int|
                v.source.received.len() <= i < t.source.received.len() ==> #[trigger] t.source.received[i] is Upstream
        }),
{
    let t = tick(v);
    let n = v.processors.len();
    let to_sink = source_batch(v) + processor_downstream(v, n);
    let to_source = sink_batch(v) + processor_upstream(v, n);
    lemma_processor_downstream_has_no_upstream(v, n);
    lemma_processor_upstream_has_no_downstream(v, n);
    lemma_no_upstream_in_downstream(since(v.source.received, v.forwarded.source_count));
    lemma_no_downstream_in_upstream(since(v.sink.received, v.forwarded.sink_count));
    assert(upstream_in(to_sink) =~= Seq::<Frame>::empty());
    assert(downstream_in(to_source) =~= Seq::<Frame>::empty());
    assert forall|i: int|
        v.sink.received.len() <= i < t.sink.received.len() implies #[trigger] t.sink.received[i] is Downstream by {
        let j = i - v.sink.received.len();
        assert(t.sink.received[i] == to_sink[j]);
        if !(to_sink[j] is Downstream) {
            to_sink.lemma_filter_contains(upstream_pred(), j);
        }
    }
    assert forall|i: int|
        v.source.received.len() <= i < t.source.received.len() implies #[trigger] t.source.received[i] is Upstream by {
        let j = i - v.source.received.len();
        assert(t.source.received[i] == to_source[j]);
        if !(to_source[j] is Upstream) {
            to_source.lemma_filter_contains(downstream_pred(), j);
        }
    }
}

/// Every frame is forwarded once: after a round, a second round leaves the
/// source, the sink and every processor exactly as they are.
pub proof fn lemma_second_tick_forwards_nothing(v: PipelineView)
    requires
        counts_in_range(v),
    ensures
        tick(tick(v)).source == tick(v).source,
        tick(tick(v)).sink == tick(v).sink,
        tick(tick(v)).processors == tick(v).processors,
{
    let t = tick(v);
    let n = v.processors.len();
    let down = source_batch(v);
    let up = sink_batch(v);
    let pd = processor_downstream(v, n);
    let pu = processor_upstream(v, n);
    assert(since(t.source.received, t.forwarded.source_count) =~= up + pu);
    lemma_no_downstream_in_upstream(since(v.sink.received, v.forwarded.sink_count));
    lemma_processor_upstream_has_no_downstream(v, n);
    assert(source_batch(t) =~= Seq::<Frame>::empty());
    assert(since(t.sink.received, t.forwarded.sink_count) =~= pd);
    lemma_processor_downstream_has_no_upstream(v, n);
    assert(sink_batch(t) =~= Seq::<Frame>::empty());
    assert forall|i: int| 0 <= i < t.processors.len() implies #[trigger] t.forwarded.processor_counts[i]
        == t.processors[i].pushed.len() by {}
    lemma_caught_up_processors_forward_nothing(t, n);
    let tt = tick(t);
    assert(tt.source.received =~= t.source.received);
    assert(tt.source.pushed =~= t.source.pushed);
    assert(tt.sink.received =~= t.sink.received);
    assert(tt.sink.pushed =~= t.sink.pushed);
    assert forall|i: int| 0 <= i < n implies #[trigger] tt.processors[i] == t.processors[i] by {
        assert(tt.processors[i].received =~= t.processors[i].received);
        assert(tt.processors[i].processed =~= t.processors[i].processed);
    }
    assert(tt.processors =~= t.processors);
}

impl Pipeline {
    /// Every processor of the pipeline keeps its counter in step with its frames.
    pub open spec fn wf(&self) -> bool {
        &&& self@.source.frame_count == self@.source.received.len()
        &&& self@.sink.frame_count == self@.sink.received.len()
        &&& forall|i: int|
            0 <= i < self@.processors.len() ==> #[trigger] self@.processors[i].frame_count
                == self@.processors[i].received.len()
    }

    /// A pipeline running the given processors, in order, between a fresh
    /// source and a fresh sink; nothing has been forwarded yet.
    pub fn new(frame_processors: Vec<DefaultFrameProcessor>) -> (p: Self)
        ensures
            p@.processors == frame_processors@.map_values(|q: DefaultFrameProcessor| q@),
            p@.source == DefaultFrameProcessor::new_log(),
            p@.sink == DefaultFrameProcessor::new_log(),
            p@.forwarded.source_count == 0,
            p@.forwarded.sink_count == 0,
            p@.forwarded.processor_counts == Seq::new(frame_processors@.len(), |i: int| 0nat),
            counts_in_range(p@),
    {
        let n = frame_processors.len();
        let mut forwarder = Forwarder::new();
        forwarder.prepare(n);
        let p = Pipeline {
            frame_processors,
            source: DefaultFrameProcessor::new(),
            sink: DefaultFrameProcessor::new(),
            forwarder,
        };
        assert(p@.forwarded.processor_counts =~= Seq::new(n as nat, |i: int| 0nat));
        p
    }

    /// The source processor.
    pub fn get_source(&self) -> (r: &DefaultFrameProcessor)
        ensures
            r@ == self@.source,
    {
        &self.source
    }

    /// The sink processor.
    pub fn get_sink(&self) -> (r: &DefaultFrameProcessor)
        ensures
            r@ == self@.sink,
    {
        &self.sink
    }

    /// The processor at `index`.
    pub fn get_processor(&self, index: usize) -> (r: &DefaultFrameProcessor)
        requires
            index < self@.processors.len(),
        ensures
            r@ == self@.processors[index as int],
    {
        &self.frame_processors[index]
    }

    /// Replaces the source; the forwarding counters are kept.
    pub fn set_source(&mut self, source: DefaultFrameProcessor)
        ensures
            final(self)@ == (PipelineView { source: source@, ..old(self)@ }),
    {
        self.source = source;
    }

    /// Replaces the sink; the forwarding counters are kept.
    pub fn set_sink(&mut self, sink: DefaultFrameProcessor)
        ensures
            final(self)@ == (PipelineView { sink: sink@, ..old(self)@ }),
    {
        self.sink = sink;
    }

    /// How many frames the source has received.
    pub fn get_source_frame_count(&self) -> (n: u32)
        ensures
            n as nat == self@.source.frame_count,
    {
        self.source.get_frame_count()
    }

    /// How many frames the sink has received.
    pub fn get_sink_frame_count(&self) -> (n: u32)
        ensures
            n as nat == self@.sink.frame_count,
    {
        self.sink.get_frame_count()
    }

    /// Pushes a frame into the source from outside.
    pub fn push_to_source(&mut self, frame: Frame)
        requires
            old(self)@.source.frame_count < u32::MAX,
        ensures
            final(self)@ == (PipelineView {
                source: log_push_all(old(self)@.source, seq![frame]),
                ..old(self)@
            }),
    {
        self.source.push_frame(frame);
        assert(self@.source.received =~= old(self)@.source.received + seq![frame]);
        assert(self@.source.pushed =~= old(self)@.source.pushed + seq![frame]);
    }

    /// Pushes a frame into the sink from outside.
    pub fn push_to_sink(&mut self, frame: Frame)
        requires
            old(self)@.sink.frame_count < u32::MAX,
        ensures
            final(self)@ == (PipelineView {
                sink: log_push_all(old(self)@.sink, seq![frame]),
                ..old(self)@
            }),
    {
        self.sink.push_frame(frame);
        assert(self@.sink.received =~= old(self)@.sink.received + seq![frame]);
        assert(self@.sink.pushed =~= old(self)@.sink.pushed + seq![frame]);
    }

    /// Pushes a frame into the processor at `index` from outside.
    pub fn push_to_processor(&mut self, index: usize, frame: Frame)
        requires
            index < old(self)@.processors.len(),
            old(self)@.processors[index as int].frame_count < u32::MAX,
        ensures
            final(self)@ == (PipelineView {
                processors: old(self)@.processors.update(
                    index as int,
                    log_push_all(old(self)@.processors[index as int], seq![frame]),
                ),
                ..old(self)@
            }),
    {
        let mut one: Vec<Frame> = Vec::new();
        one.push(frame);
        push_all(&mut self.frame_processors[index], &one);
        assert(self@.processors =~= old(self)@.processors.update(
            index as int,
            log_push_all(old(self)@.processors[index as int], seq![frame]),
        ));
    }

    /// One round of forwarding (see `tick`). A running pipeline performs such
    /// rounds forever, pausing between them.
    pub fn run_once(&mut self)
        requires
            counts_in_range(old(self)@),
            tick_fits(old(self)@),
        ensures
            final(self)@ == tick(old(self)@),
            old(self).wf() ==> final(self).wf(),
    {
        let ghost v = self@;
        let n = self.frame_processors.len();
        assert(n == v.processors.len());

        // Frames that reached the source travel downstream through every processor to the sink.
        let source_frames = self.source.get_recieved_frames();
        let down = self.forwarder.take_from_source(&source_frames);
        assert(down@ == source_batch(v));
        let mut i: usize = 0;
        while i < n
            invariant
                i <= n == self.frame_processors@.len() == v.processors.len(),
                tick_fits(v),
                down@ == source_batch(v),
                forall|j: int|
                    0 <= j < i ==> #[trigger] self.frame_processors@[j]@ == log_process_all(
                        v.processors[j],
                        down@,
                    ),
                forall|j: int|
                    i <= j < n ==> #[trigger] self.frame_processors@[j]@ == v.processors[j],
                self.source@ == v.source,
                self.sink@ == v.sink,
                self.forwarder@.source_count == v.source.received.len(),
                self.forwarder@.sink_count == v.forwarded.sink_count,
                self.forwarder@.processor_counts == v.forwarded.processor_counts,
                forall|j: int|
                    0 <= j < n ==> (#[trigger] v.processors[j]).frame_count == v.processors[j].received.len()
                    ==> self.frame_processors@[j]@.frame_count == self.frame_processors@[j]@.received.len(),
            decreases n - i,
        {
            assert(v.processors[i as int].frame_count + down@.len() <= u32::MAX);
            process_all(&mut self.frame_processors[i], &down);
            i = i + 1;
        }
        push_all(&mut self.sink, &down);

        // Frames that reached the sink travel upstream through every processor to the source.
        let sink_frames = self.sink.get_recieved_frames();
        let up = self.forwarder.take_from_sink(&sink_frames);
        proof {
            assert(since(v.sink.received + down@, v.forwarded.sink_count) =~= since(
                v.sink.received,
                v.forwarded.sink_count,
            ) + down@);
            lemma_no_upstream_in_downstream(since(v.source.received, v.forwarded.source_count));
            assert(up@ =~= sink_batch(v));
        }
        let mut i: usize = 0;
        while i < n
            invariant
                i <= n == self.frame_processors@.len() == v.processors.len(),
                tick_fits(v),
                down@ == source_batch(v),
                up@ == sink_batch(v),
                forall|j: int|
                    0 <= j < i ==> #[trigger] self.frame_processors@[j]@ == log_process_all(
                        v.processors[j],
                        down@ + up@,
                    ),
                forall|j: int|
                    i <= j < n ==> #[trigger] self.frame_processors@[j]@ == log_process_all(
                        v.processors[j],
                        down@,
                    ),
                self.source@ == v.source,
                self.sink@ == log_push_all(v.sink, down@),
                self.forwarder@.source_count == v.source.received.len(),
                self.forwarder@.sink_count == v.sink.received.len() + down@.len(),
                self.forwarder@.processor_counts == v.forwarded.processor_counts,
                forall|j: int|
                    0 <= j < n ==> (#[trigger] v.processors[j]).frame_count == v.processors[j].received.len()
                    ==> self.frame_processors@[j]@.frame_count == self.frame_processors@[j]@.received.len(),
            decreases n - i,
        {
            assert(v.processors[i as int].frame_count + down@.len() + up@.len() <= u32::MAX);
            process_all(&mut self.frame_processors[i], &up);
            proof {
                let j = i as int;
                assert(self.frame_processors@[j]@.received =~= v.processors[j].received + (down@ + up@));
                assert(self.frame_processors@[j]@.processed =~= v.processors[j].processed + (down@ + up@));
            }
            i = i + 1;
        }
        push_all(&mut self.source, &up);

        // Frames each processor pushed go to the sink or the source by their direction.
        let ghost sink0 = self.sink@;
        let ghost source0 = self.source@;
        let mut k: usize = 0;
        while k < n
            invariant
                k <= n == self.frame_processors@.len() == v.processors.len(),
                counts_in_range(v),
                tick_fits(v),
                down@ == source_batch(v),
                up@ == sink_batch(v),
                forall|j: int|
                    0 <= j < n ==> #[trigger] self.frame_processors@[j]@ == log_process_all(
                        v.processors[j],
                        down@ + up@,
                    ),
                sink0 == log_push_all(v.sink, down@),
                source0 == log_push_all(v.source, up@),
                self.sink@ == log_push_all(sink0, processor_downstream(v, k as nat)),
                self.source@ == log_push_all(source0, processor_upstream(v, k as nat)),
                self.forwarder@.source_count == v.source.received.len(),
                self.forwarder@.sink_count == v.sink.received.len() + down@.len(),
                self.forwarder@.processor_counts.len() == n,
                forall|j: int|
                    0 <= j < k ==> #[trigger] self.forwarder@.processor_counts[j]
                        == v.processors[j].pushed.len(),
                forall|j: int|
                    k <= j < n ==> #[trigger] self.forwarder@.processor_counts[j]
                        == v.forwarded.processor_counts[j],
                forall|j: int|
                    0 <= j < n ==> (#[trigger] v.processors[j]).frame_count == v.processors[j].received.len()
                    ==> self.frame_processors@[j]@.frame_count == self.frame_processors@[j]@.received.len(),
            decreases n - k,
        {
            let pushed = self.frame_processors[k].get_pushed_frames();
            assert(pushed@ == v.processors[k as int].pushed);
            let (d, u) = self.forwarder.take_from_processor(k, &pushed);
            proof {
                lemma_processor_downstream_len_mono(v, (k + 1) as nat, n as nat);
                lemma_processor_upstream_len_mono(v, (k + 1) as nat, n as nat);
                assert(processor_downstream(v, (k + 1) as nat) == processor_downstream(v, k as nat) + d@);
                assert(processor_upstream(v, (k + 1) as nat) == processor_upstream(v, k as nat) + u@);
            }
            push_all(&mut self.sink, &d);
            push_all(&mut self.source, &u);
            proof {
                let pd = processor_downstream(v, k as nat);
                let pu = processor_upstream(v, k as nat);
                assert(self.sink@.received =~= sink0.received + (pd + d@));
                assert(self.sink@.pushed =~= sink0.pushed + (pd + d@));
                assert(self.source@.received =~= source0.received + (pu + u@));
                assert(self.source@.pushed =~= source0.pushed + (pu + u@));
            }
            k = k + 1;
        }
        proof {
            let t = tick(v);
            assert(self@.sink.received =~= t.sink.received);
            assert(self@.sink.pushed =~= t.sink.pushed);
            assert(self@.source.received =~= t.source.received);
            assert(self@.source.pushed =~= t.source.pushed);
            assert(self@.processors =~= t.processors);
            assert(self@.forwarded.processor_counts =~= t.forwarded.processor_counts);
        }
    }
}

} // verus!
