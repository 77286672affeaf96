use vstd::prelude::*;
use crate::frame::frame::Frame;
use crate::frame_processor::frame_processor::ProcessorLog;
use crate::pipeline::pipeline::{
    downstream_in, log_process_all, log_push_all, process_everywhere, pushed_into_sink, pushed_into_source,
    processor_downstream, processor_upstream, since, sink_batch, source_batch, tick, upstream_in,
    counts_in_range, lemma_no_upstream_in_downstream, Delivery, ForwarderView, PipelineView, upstream_pred,
};

verus! {

/// The pipeline's logs after one delivery is carried out; a delivery to a
/// processor that does not exist changes nothing.
pub open spec fn apply_delivery(v: PipelineView, d: Delivery) -> PipelineView {
    match d {
        Delivery::Process(i, f) => if i < v.processors.len() {
            PipelineView {
                processors: v.processors.update(i as int, log_process_all(v.processors[i as int], seq![f])),
                ..v
            }
        } else {
            v
        },
        Delivery::PushSink(f) => PipelineView { sink: log_push_all(v.sink, seq![f]), ..v },
        Delivery::PushSource(f) => PipelineView { source: log_push_all(v.source, seq![f]), ..v },
    }
}

/// The pipeline's logs after `ds` are carried out, in order.
pub open spec fn apply_all(v: PipelineView, ds: Seq<Delivery>) -> PipelineView
    decreases ds.len(),
{
    if ds.len() == 0 {
        v
    } else {
        apply_delivery(apply_all(v, ds.drop_last()), ds.last())
    }
}

/// Processing `a` and then `b` is processing `a + b`.
proof fn lemma_process_twice(l: ProcessorLog, a: Seq<Frame>, b: Seq<Frame>)
    ensures
        log_process_all(log_process_all(l, a), b) == log_process_all(l, a + b),
{
    assert(l.received + a + b =~= l.received + (a + b));
    assert(l.processed + a + b =~= l.processed + (a + b));
}

/// Pushing `a` and then `b` is pushing `a + b`.
proof fn lemma_push_twice(l: ProcessorLog, a: Seq<Frame>, b: Seq<Frame>)
    ensures
        log_push_all(log_push_all(l, a), b) == log_push_all(l, a + b),
{
    assert(l.received + a + b =~= l.received + (a + b));
    assert(l.pushed + a + b =~= l.pushed + (a + b));
}

/// Processing or pushing nothing changes nothing.
proof fn lemma_nothing_changes_nothing(l: ProcessorLog)
    ensures
        log_process_all(l, Seq::empty()) == l,
        log_push_all(l, Seq::empty()) == l,
{
    assert(l.received + Seq::<Frame>::empty() =~= l.received);
    assert(l.processed + Seq::<Frame>::empty() =~= l.processed);
    assert(l.pushed + Seq::<Frame>::empty() =~= l.pushed);
}

/// Carrying out `a` and then `b` is carrying out `a + b`.
proof fn lemma_apply_concat(v: PipelineView, a: Seq<Delivery>, b: Seq<Delivery>)
    ensures
        apply_all(apply_all(v, a), b) == apply_all(v, a + b),
    decreases b.len(),
{
    if b.len() == 0 {
        assert(a + b =~= a);
    } else {
        lemma_apply_concat(v, a, b.drop_last());
        assert((a + b).drop_last() =~= a + b.drop_last());
        assert((a + b).last() == b.last());
    }
}

/// Pushing each of `fs` into the sink pushes `fs` into its log.
proof fn lemma_apply_pushes_into_sink(v: PipelineView, fs: Seq<Frame>)
    ensures
        apply_all(v, pushed_into_sink(fs)) == (PipelineView { sink: log_push_all(v.sink, fs), ..v }),
    decreases fs.len(),
{
    if fs.len() == 0 {
        lemma_nothing_changes_nothing(v.sink);
        assert(pushed_into_sink(fs) =~= Seq::empty());
    } else {
        let f = fs.last();
        lemma_apply_pushes_into_sink(v, fs.drop_last());
        assert(pushed_into_sink(fs).drop_last() =~= pushed_into_sink(fs.drop_last()));
        lemma_push_twice(v.sink, fs.drop_last(), seq![f]);
        assert(fs.drop_last() + seq![f] =~= fs);
    }
}

/// Pushing each of `fs` into the source pushes `fs` into its log.
proof fn lemma_apply_pushes_into_source(v: PipelineView, fs: Seq<Frame>)
    ensures
        apply_all(v, pushed_into_source(fs)) == (PipelineView { source: log_push_all(v.source, fs), ..v }),
    decreases fs.len(),
{
    if fs.len() == 0 {
        lemma_nothing_changes_nothing(v.source);
        assert(pushed_into_source(fs) =~= Seq::empty());
    } else {
        let f = fs.last();
        lemma_apply_pushes_into_source(v, fs.drop_last());
        assert(pushed_into_source(fs).drop_last() =~= pushed_into_source(fs.drop_last()));
        lemma_push_twice(v.source, fs.drop_last(), seq![f]);
        assert(fs.drop_last() + seq![f] =~= fs);
    }
}

/// Handing each of `fs` to processor `i` makes it process `fs`.
proof fn lemma_apply_process_one(v: PipelineView, fs: Seq<Frame>, i: usize)
    requires
        i < v.processors.len(),
    ensures
        apply_all(v, fs.map_values(|f: Frame| Delivery::Process(i, f))) == (PipelineView {
            processors: v.processors.update(i as int, log_process_all(v.processors[i as int], fs)),
            ..v
        }),
    decreases fs.len(),
{
    let ds = fs.map_values(|f: Frame| Delivery::Process(i, f));
    if fs.len() == 0 {
        lemma_nothing_changes_nothing(v.processors[i as int]);
        assert(ds =~= Seq::empty());
        assert(v.processors.update(i as int, v.processors[i as int]) =~= v.processors);
    } else {
        let f = fs.last();
        lemma_apply_process_one(v, fs.drop_last(), i);
        assert(ds.drop_last() =~= fs.drop_last().map_values(|f: Frame| Delivery::Process(i, f)));
        lemma_process_twice(v.processors[i as int], fs.drop_last(), seq![f]);
        assert(fs.drop_last() + seq![f] =~= fs);
        let w = apply_all(v, ds.drop_last());
        assert(w.processors.update(i as int, log_process_all(w.processors[i as int], seq![f])) =~= v.processors.update(
            i as int,
            log_process_all(v.processors[i as int], fs),
        ));
    }
}

/// The processors' logs after the first `k` of them each processed `fs`.
pub open spec fn processed_by_first(ps: Seq<ProcessorLog>, fs: Seq<Frame>, k: nat) -> Seq<ProcessorLog> {
    Seq::new(ps.len(), |j: int| if j < k { log_process_all(ps[j], fs) } else { ps[j] })
}

/// Handing `fs` to each of the first `k` processors makes each of them process `fs`.
proof fn lemma_apply_process_everywhere(v: PipelineView, fs: Seq<Frame>, k: nat)
    requires
        k <= v.processors.len() <= usize::MAX,
    ensures
        apply_all(v, process_everywhere(fs, k)) == (PipelineView {
            processors: processed_by_first(v.processors, fs, k),
            ..v
        }),
    decreases k,
{
    if k == 0 {
        assert(processed_by_first(v.processors, fs, 0) =~= v.processors);
    } else {
        let i = (k - 1) as usize;
        lemma_apply_process_everywhere(v, fs, (k - 1) as nat);
        let w = apply_all(v, process_everywhere(fs, (k - 1) as nat));
        let one = fs.map_values(|f: Frame| Delivery::Process(i, f));
        assert(one =~= fs.map_values(|f: Frame| Delivery::Process((k - 1) as usize, f)));
        lemma_apply_concat(v, process_everywhere(fs, (k - 1) as nat), one);
        lemma_apply_process_one(w, fs, i);
        assert(w.processors.update(i as int, log_process_all(w.processors[i as int], fs)) =~= processed_by_first(
            v.processors,
            fs,
            k,
        ));
    }
}

/// What `Forwarder::plan_from_source` asks for on the source's frames: its
/// new downstream frames handed to every processor, then pushed into the sink.
pub open spec fn source_step_plan(v: PipelineView) -> Seq<Delivery> {
    let down = downstream_in(since(v.source.received, v.forwarded.source_count));
    process_everywhere(down, v.processors.len()) + pushed_into_sink(down)
}

/// What `Forwarder::plan_from_sink` asks for on the sink's frames: its new
/// upstream frames handed to every processor, then pushed into the source.
pub open spec fn sink_step_plan(v: PipelineView) -> Seq<Delivery> {
    let up = upstream_in(since(v.sink.received, v.forwarded.sink_count));
    process_everywhere(up, v.processors.len()) + pushed_into_source(up)
}

/// What `Forwarder::plan_from_processor` asks for on processor `i`'s pushed
/// frames: the new downstream ones pushed into the sink, then the new upstream
/// ones into the source.
pub open spec fn processor_step_plan(v: PipelineView, i: int) -> Seq<Delivery> {
    let fresh = since(v.processors[i].pushed, v.forwarded.processor_counts[i]);
    pushed_into_sink(downstream_in(fresh)) + pushed_into_source(upstream_in(fresh))
}

/// The pipeline after the source step is carried out and the source's counter moved.
pub open spec fn after_source_step(v: PipelineView) -> PipelineView {
    let w = apply_all(v, source_step_plan(v));
    PipelineView { forwarded: ForwarderView { source_count: v.source.received.len(), ..w.forwarded }, ..w }
}

/// The pipeline after the sink step is carried out and the sink's counter moved.
pub open spec fn after_sink_step(v: PipelineView) -> PipelineView {
    let w = apply_all(v, sink_step_plan(v));
    PipelineView { forwarded: ForwarderView { sink_count: v.sink.received.len(), ..w.forwarded }, ..w }
}

/// The pipeline after processor `i`'s step is carried out and its counter moved.
pub open spec fn after_processor_step(v: PipelineView, i: int) -> PipelineView {
    let w = apply_all(v, processor_step_plan(v, i));
    PipelineView {
        forwarded: ForwarderView {
            processor_counts: w.forwarded.processor_counts.update(i, v.processors[i].pushed.len()),
            ..w.forwarded
        },
        ..w
    }
}

/// The pipeline after the steps of the first `k` processors, in order.
pub open spec fn after_processor_steps(v: PipelineView, k: nat) -> PipelineView
    decreases k,
{
    if k == 0 {
        v
    } else {
        after_processor_step(after_processor_steps(v, (k - 1) as nat), k - 1)
    }
}

/// A round carried out step by step from the plans: the source step, the
/// sink step, then each processor's step in order.
pub open spec fn round_by_plans(v: PipelineView) -> PipelineView {
    after_processor_steps(after_sink_step(after_source_step(v)), v.processors.len())
}

/// Carrying out deliveries changes no counter.
proof fn lemma_apply_keeps_counters(v: PipelineView, ds: Seq<Delivery>)
    ensures
        apply_all(v, ds).forwarded == v.forwarded,
        apply_all(v, ds).processors.len() == v.processors.len(),
    decreases ds.len(),
{
    if ds.len() > 0 {
        lemma_apply_keeps_counters(v, ds.drop_last());
    }
}

/// The processor steps of the first `k` processors push what those
/// processors pushed since they were last looked at into the sink and the
/// source, and move their counters; nothing else changes.
proof fn lemma_processor_steps(u: PipelineView, v: PipelineView, k: nat)
    requires
        k <= v.processors.len(),
        u.processors.len() == v.processors.len(),
        u.forwarded.processor_counts == v.forwarded.processor_counts,
        v.forwarded.processor_counts.len() == v.processors.len(),
        forall|j: int| 0 <= j < v.processors.len() ==> (#[trigger] u.processors[j]).pushed == v.processors[j].pushed,
    ensures
        after_processor_steps(u, k) == (PipelineView {
            source: log_push_all(u.source, processor_upstream(v, k)),
            sink: log_push_all(u.sink, processor_downstream(v, k)),
            processors: u.processors,
            forwarded: ForwarderView {
                processor_counts: Seq::new(
                    v.processors.len(),
                    |j: int| if j < k { v.processors[j].pushed.len() } else { v.forwarded.processor_counts[j] },
                ),
                ..u.forwarded
            },
        }),
    decreases k,
{
    let n = v.processors.len();
    if k == 0 {
        lemma_nothing_changes_nothing(u.source);
        lemma_nothing_changes_nothing(u.sink);
        assert(Seq::new(n, |j: int| if j < 0 { v.processors[j].pushed.len() } else { v.forwarded.processor_counts[j] })
            =~= u.forwarded.processor_counts);
    } else {
        let i = k - 1;
        lemma_processor_steps(u, v, (k - 1) as nat);
        let s = after_processor_steps(u, (k - 1) as nat);
        assert(s.processors[i] == u.processors[i]);
        let fresh = since(v.processors[i].pushed, v.forwarded.processor_counts[i]);
        assert(since(s.processors[i].pushed, s.forwarded.processor_counts[i]) == fresh);
        let a = pushed_into_sink(downstream_in(fresh));
        let b = pushed_into_source(upstream_in(fresh));
        lemma_apply_concat(s, a, b);
        lemma_apply_pushes_into_sink(s, downstream_in(fresh));
        let s1 = apply_all(s, a);
        lemma_apply_pushes_into_source(s1, upstream_in(fresh));
        lemma_push_twice(u.sink, processor_downstream(v, (k - 1) as nat), downstream_in(fresh));
        lemma_push_twice(u.source, processor_upstream(v, (k - 1) as nat), upstream_in(fresh));
        let t = after_processor_steps(u, k);
        assert(t.forwarded.processor_counts =~= Seq::new(
            n,
            |j: int| if j < k { v.processors[j].pushed.len() } else { v.forwarded.processor_counts[j] },
        ));
    }
}

/// Carrying out the three kinds of plans of a round, each on the pipeline as
/// the steps before it left it, forwards exactly what one round does: the
/// plans compose into `tick`.
pub proof fn lemma_plans_make_one_round(v: PipelineView)
    requires
        counts_in_range(v),
        v.processors.len() <= usize::MAX,
    ensures
        round_by_plans(v) == tick(v),
{
    let n = v.processors.len();
    let down = source_batch(v);
    let up = sink_batch(v);

    // The source step.
    let p1 = process_everywhere(down, n);
    lemma_apply_concat(v, p1, pushed_into_sink(down));
    lemma_apply_process_everywhere(v, down, n);
    let w1 = apply_all(v, p1);
    lemma_apply_pushes_into_sink(w1, down);
    let v1 = after_source_step(v);
    assert(v1.processors == processed_by_first(v.processors, down, n));
    assert(v1.sink == log_push_all(v.sink, down));
    assert(v1.source == v.source);
    assert(v1.forwarded.sink_count == v.forwarded.sink_count);

    // The sink step sees the sink's new upstream frames: those pushed by the
    // source step all travel downstream.
    let c = v.forwarded.sink_count;
    assert(since(v1.sink.received, c) =~= since(v.sink.received, c) + down);
    Seq::filter_distributes_over_add(since(v.sink.received, c), down, upstream_pred());
    lemma_no_upstream_in_downstream(since(v.source.received, v.forwarded.source_count));
    assert(upstream_in(since(v1.sink.received, c)) =~= up);
    let p2 = process_everywhere(up, n);
    lemma_apply_concat(v1, p2, pushed_into_source(up));
    lemma_apply_process_everywhere(v1, up, n);
    let w2 = apply_all(v1, p2);
    lemma_apply_pushes_into_source(w2, up);
    let v2 = after_sink_step(v1);
    assert forall|j: int| 0 <= j < n implies #[trigger] v2.processors[j] == log_process_all(v.processors[j], down + up) by {
        lemma_process_twice(v.processors[j], down, up);
    }
    assert(v2.source == log_push_all(v.source, up));
    assert(v2.sink == log_push_all(v.sink, down));

    // The processor steps.
    lemma_processor_steps(v2, v, n);
    lemma_push_twice(v.source, up, processor_upstream(v, n));
    lemma_push_twice(v.sink, down, processor_downstream(v, n));
    let r = round_by_plans(v);
    let t = tick(v);
    assert(r.processors =~= t.processors);
    assert(r.forwarded.processor_counts =~= t.forwarded.processor_counts);
}

} // verus!
