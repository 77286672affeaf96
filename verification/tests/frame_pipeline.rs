use pipecat_rs::frame::frame::{Frame, FrameType};
use pipecat_rs::frame_processor::frame_processor::DefaultFrameProcessor;
use pipecat_rs::pipeline::pipeline::{Delivery, Forwarder, Pipeline};

fn down() -> Frame {
    Frame::Downstream(FrameType::Heartbeat)
}

fn up() -> Frame {
    Frame::Upstream(FrameType::Heartbeat)
}

fn received(p: &DefaultFrameProcessor) -> Vec<Frame> {
    p.get_recieved_frames()
}

#[test]
fn empty_pipeline_rounds_forward_nothing() {
    let mut pipeline = Pipeline::new(vec![]);
    pipeline.run_once();
    pipeline.run_once();
    assert_eq!(pipeline.get_source_frame_count(), 0);
    assert_eq!(pipeline.get_sink_frame_count(), 0);
}

#[test]
fn test_new_pipeline_has_source_and_sink() {
    let pipeline = Pipeline::new(vec![]);
    let _source = pipeline.get_source();
    let _sink = pipeline.get_sink();
    assert_eq!(received(pipeline.get_source()), vec![]);
    assert_eq!(received(pipeline.get_sink()), vec![]);
}

#[test]
fn test_pipeline_pushes_frame_upstream() {
    let mut pipeline = Pipeline::new(vec![]);
    let source_frame = down();
    pipeline.push_to_source(source_frame);
    pipeline.run_once();
    assert_eq!(received(pipeline.get_sink()), vec![source_frame]);
    assert_eq!(received(pipeline.get_source()), vec![source_frame]);
}

#[test]
fn test_pipeline_pushes_frame_downstream() {
    let mut pipeline = Pipeline::new(vec![]);
    let sink_frame = up();
    pipeline.push_to_sink(sink_frame);
    pipeline.run_once();
    assert_eq!(received(pipeline.get_sink()), vec![sink_frame]);
    assert_eq!(received(pipeline.get_source()), vec![sink_frame]);
}

#[test]
fn test_single_processor_pipeline_push_to_source() {
    let mut pipeline = Pipeline::new(vec![DefaultFrameProcessor::new()]);
    let source_frame = down();
    pipeline.push_to_source(source_frame);
    pipeline.run_once();
    assert_eq!(received(pipeline.get_sink()), vec![source_frame]);
    assert_eq!(received(pipeline.get_processor(0)), vec![source_frame]);
    assert_eq!(received(pipeline.get_source()), vec![source_frame]);
}

#[test]
fn test_single_processor_pipeline_push_to_sink() {
    let mut pipeline = Pipeline::new(vec![DefaultFrameProcessor::new()]);
    let pushed_frame = up();
    pipeline.push_to_sink(pushed_frame);
    pipeline.run_once();
    assert_eq!(received(pipeline.get_sink()), vec![pushed_frame]);
    assert_eq!(received(pipeline.get_processor(0)), vec![pushed_frame]);
    assert_eq!(received(pipeline.get_source()), vec![pushed_frame]);
}

#[test]
fn test_single_processor_pipeline_push_to_default_processor_downstream() {
    let mut pipeline = Pipeline::new(vec![DefaultFrameProcessor::new()]);
    let pushed_frame = down();
    pipeline.push_to_processor(0, pushed_frame);
    pipeline.run_once();
    assert_eq!(received(pipeline.get_sink()), vec![pushed_frame]);
    assert_eq!(received(pipeline.get_processor(0)), vec![pushed_frame]);
    assert_eq!(received(pipeline.get_source()), vec![]);
}

#[test]
fn test_single_processor_pipeline_push_to_default_processor_upstream() {
    let mut pipeline = Pipeline::new(vec![DefaultFrameProcessor::new()]);
    let pushed_frame = up();
    pipeline.push_to_processor(0, pushed_frame);
    pipeline.run_once();
    assert_eq!(received(pipeline.get_sink()), vec![]);
    assert_eq!(received(pipeline.get_processor(0)), vec![pushed_frame]);
    assert_eq!(received(pipeline.get_source()), vec![pushed_frame]);
}

#[test]
fn second_round_forwards_nothing() {
    let mut pipeline = Pipeline::new(vec![DefaultFrameProcessor::new(), DefaultFrameProcessor::new()]);
    pipeline.push_to_source(down());
    pipeline.push_to_sink(up());
    pipeline.push_to_processor(1, down());
    pipeline.push_to_processor(0, up());
    pipeline.run_once();
    let sink = received(pipeline.get_sink());
    let source = received(pipeline.get_source());
    let first = received(pipeline.get_processor(0));
    let second = received(pipeline.get_processor(1));
    pipeline.run_once();
    assert_eq!(received(pipeline.get_sink()), sink);
    assert_eq!(received(pipeline.get_source()), source);
    assert_eq!(received(pipeline.get_processor(0)), first);
    assert_eq!(received(pipeline.get_processor(1)), second);
    // The sink got the source's frame, then the second processor's.
    assert_eq!(sink, vec![up(), down(), down()]);
    // The source got the sink's frame, then the first processor's.
    assert_eq!(source, vec![down(), up(), up()]);
    // Every processor processed the source's and the sink's frames.
    assert_eq!(first, vec![up(), down(), up()]);
    assert_eq!(second, vec![down(), down(), up()]);
}

#[test]
fn source_frames_that_travel_upstream_are_not_forwarded() {
    let mut pipeline = Pipeline::new(vec![DefaultFrameProcessor::new()]);
    pipeline.push_to_source(up());
    pipeline.push_to_sink(down());
    pipeline.run_once();
    assert_eq!(received(pipeline.get_sink()), vec![down()]);
    assert_eq!(received(pipeline.get_source()), vec![up()]);
    assert_eq!(received(pipeline.get_processor(0)), vec![]);
}

#[test]
fn frame_counts_follow_received_frames() {
    let mut pipeline = Pipeline::new(vec![DefaultFrameProcessor::new()]);
    pipeline.push_to_source(down());
    pipeline.push_to_source(down());
    pipeline.run_once();
    assert_eq!(pipeline.get_source_frame_count(), 2);
    assert_eq!(pipeline.get_sink_frame_count(), 2);
    assert_eq!(pipeline.get_processor(0).get_frame_count(), 2);
}

#[test]
fn replaced_sink_keeps_forwarding_counters() {
    let mut pipeline = Pipeline::new(vec![]);
    pipeline.push_to_source(down());
    pipeline.run_once();
    let mut sink = DefaultFrameProcessor::new();
    sink.push_frame(down());
    sink.push_frame(up());
    pipeline.set_sink(sink);
    pipeline.run_once();
    // The counter still stands at one frame, so only the second frame is new.
    assert_eq!(received(pipeline.get_source()), vec![down(), up()]);
    let source = DefaultFrameProcessor::new();
    pipeline.set_source(source);
    assert_eq!(pipeline.get_source_frame_count(), 0);
}

#[test]
fn default_processor_keeps_pushed_and_processed_frames() {
    let mut p = DefaultFrameProcessor::new();
    p.push_frame(up());
    p.process_frame(down());
    p.push_frame(down());
    assert_eq!(p.get_frame_count(), 3);
    assert_eq!(p.get_recieved_frames(), vec![up(), down(), down()]);
    assert_eq!(p.get_pushed_frames(), vec![up(), down()]);
}

#[test]
fn forwarder_takes_only_new_frames_in_direction() {
    let mut f = Forwarder::new();
    f.prepare(2);
    let frames = vec![down(), up(), down()];
    assert_eq!(f.take_from_source(&frames), vec![down(), down()]);
    let more = vec![down(), up(), down(), up(), down()];
    assert_eq!(f.take_from_source(&more), vec![down()]);
    assert_eq!(f.take_from_sink(&more), vec![up(), up()]);
    let (d, u) = f.take_from_processor(1, &frames);
    assert_eq!(d, vec![down(), down()]);
    assert_eq!(u, vec![up()]);
    let (d, u) = f.take_from_processor(1, &frames);
    assert_eq!(d, vec![]);
    assert_eq!(u, vec![]);
    let (d, _) = f.take_from_processor(0, &frames);
    assert_eq!(d, vec![down(), down()]);
}

#[test]
fn frame_direction_is_known() {
    assert!(down().is_downstream());
    assert!(!up().is_downstream());
}

#[test]
fn pushed_frames_keep_their_arrival_order() {
    let mut p = DefaultFrameProcessor::new();
    p.process_frame(down());
    p.push_frame(up());
    p.process_frame(up());
    p.push_frame(down());
    assert_eq!(p.get_frame_count(), 4);
    assert_eq!(p.get_recieved_frames(), vec![down(), up(), up(), down()]);
    assert_eq!(p.get_pushed_frames(), vec![up(), down()]);
}

#[test]
fn round_plans_send_each_new_frame_through_every_processor() {
    let mut f = Forwarder::new();
    f.prepare(2);
    let source_received = vec![down(), up(), down()];
    assert_eq!(
        f.plan_from_source(2, &source_received),
        vec![
            Delivery::Process(0, down()),
            Delivery::Process(0, down()),
            Delivery::Process(1, down()),
            Delivery::Process(1, down()),
            Delivery::PushSink(down()),
            Delivery::PushSink(down()),
        ]
    );
    assert_eq!(f.source_count(), 3);
    assert_eq!(f.plan_from_source(2, &source_received), vec![]);

    let sink_received = vec![up(), down()];
    assert_eq!(
        f.plan_from_sink(1, &sink_received),
        vec![Delivery::Process(0, up()), Delivery::PushSource(up())]
    );
    assert_eq!(f.sink_count(), 2);

    let pushed = vec![up(), down(), up()];
    assert_eq!(
        f.plan_from_processor(1, &pushed),
        vec![Delivery::PushSink(down()), Delivery::PushSource(up()), Delivery::PushSource(up())]
    );
    assert_eq!(f.processor_count(1), 3);
    assert_eq!(f.processor_count(0), 0);
    assert_eq!(f.plan_from_processor(1, &pushed), vec![]);
}

fn carry_out(ds: &[Delivery], procs: &mut Vec<DefaultFrameProcessor>, source: &mut DefaultFrameProcessor, sink: &mut DefaultFrameProcessor) {
    for d in ds {
        match *d {
            Delivery::Process(i, f) => procs[i].process_frame(f),
            Delivery::PushSink(f) => sink.push_frame(f),
            Delivery::PushSource(f) => source.push_frame(f),
        }
    }
}

#[test]
fn carrying_out_the_plans_is_one_round() {
    let mut pipeline = Pipeline::new(vec![DefaultFrameProcessor::new(), DefaultFrameProcessor::new()]);
    pipeline.push_to_source(down());
    pipeline.push_to_source(up());
    pipeline.push_to_sink(up());
    pipeline.push_to_processor(0, up());
    pipeline.push_to_processor(1, down());
    pipeline.run_once();

    let mut procs = vec![DefaultFrameProcessor::new(), DefaultFrameProcessor::new()];
    let mut source = DefaultFrameProcessor::new();
    let mut sink = DefaultFrameProcessor::new();
    source.push_frame(down());
    source.push_frame(up());
    sink.push_frame(up());
    procs[0].push_frame(up());
    procs[1].push_frame(down());
    let mut f = Forwarder::new();
    f.prepare(2);
    let plan = f.plan_from_source(2, &source.get_recieved_frames());
    carry_out(&plan, &mut procs, &mut source, &mut sink);
    let plan = f.plan_from_sink(2, &sink.get_recieved_frames());
    carry_out(&plan, &mut procs, &mut source, &mut sink);
    for i in 0..2 {
        let plan = f.plan_from_processor(i, &procs[i].get_pushed_frames());
        carry_out(&plan, &mut procs, &mut source, &mut sink);
    }

    assert_eq!(received(&source), received(pipeline.get_source()));
    assert_eq!(received(&sink), received(pipeline.get_sink()));
    for i in 0..2 {
        assert_eq!(received(&procs[i]), received(pipeline.get_processor(i)));
        assert_eq!(procs[i].get_pushed_frames(), pipeline.get_processor(i).get_pushed_frames());
    }
    assert_eq!(received(&sink), vec![up(), down(), down()]);
    assert_eq!(received(&source), vec![down(), up(), up(), up()]);
}
