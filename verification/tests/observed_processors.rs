use pipecat_rs::observer::Observer;
use pipecat_rs::pipecat_rs_locked::frame::{DataFrame, Frame, SystemFrame, TextDelta};
use pipecat_rs::pipeline::{AnyProcessor, Pipeline};
use pipecat_rs::processors::{EchoProcessor, InputProcessor, OutputProcessor};

fn input_text(s: &str) -> Frame {
    Frame::DataFrame(DataFrame::InputTextFrame(s.to_string()))
}

fn output_text(s: &str) -> Frame {
    Frame::DataFrame(DataFrame::OutputTextFrame(s.to_string()))
}

#[test]
fn processors_chain_echoes_a_message() {
    let mut input_processor = InputProcessor::new();
    input_processor.add_observer(Observer::new());
    let mut echo_processor = EchoProcessor::new();
    echo_processor.add_observer(Observer::new());
    let mut output_processor = OutputProcessor::new();
    output_processor.add_observer(Observer::new());

    let input = "hello-1";
    let f = input_processor.handle(input_text(input)).unwrap();
    let f = echo_processor.handle(f).unwrap();
    let f = output_processor.handle(f).unwrap();
    assert_eq!(f, output_text(input));

    let input_obs = &input_processor.observers()[0];
    assert!(!input_obs.processed_contains(|_| true));
    assert!(input_obs.emitted_contains(|f| f == input_text(input)));
    let echo_obs = &echo_processor.observers()[0];
    assert!(echo_obs.processed_contains(|f| f == input_text(input)));
    assert!(echo_obs.emitted_contains(|f| f == output_text(input)));
    let output_obs = &output_processor.observers()[0];
    assert!(output_obs.processed_contains(|f| f == output_text(input)));
    assert!(!output_obs.emitted_contains(|_| true));
}

#[test]
fn processors_chain_echoes_messages_in_order() {
    let mut input_processor = InputProcessor::new();
    input_processor.add_observer(Observer::new());
    let mut echo_processor = EchoProcessor::new();
    echo_processor.add_observer(Observer::new());
    echo_processor.add_observer(Observer::new());
    let mut output_processor = OutputProcessor::new();
    output_processor.add_observer(Observer::new());

    for text in ["hello-1", "world-2"] {
        let f = input_processor.handle(input_text(text)).unwrap();
        let f = echo_processor.handle(f).unwrap();
        output_processor.handle(f).unwrap();
    }
    assert_eq!(input_processor.observers()[0].emitted_frames(), vec![input_text("hello-1"), input_text("world-2")]);
    for obs in echo_processor.observers() {
        assert_eq!(obs.processed_frames(), vec![input_text("hello-1"), input_text("world-2")]);
        assert_eq!(obs.emitted_frames(), vec![output_text("hello-1"), output_text("world-2")]);
    }
    assert_eq!(output_processor.observers()[0].processed_frames(), vec![output_text("hello-1"), output_text("world-2")]);
    assert_eq!(output_processor.observers()[0].emitted_frames(), vec![]);
}

#[test]
fn echo_passes_other_frames_unchanged() {
    let mut echo_processor = EchoProcessor::new();
    echo_processor.add_observer(Observer::new());
    let shutdown = Frame::SystemFrame(SystemFrame::Shutdown);
    assert_eq!(echo_processor.handle(shutdown.clone()), Some(shutdown.clone()));
    assert_eq!(echo_processor.handle(output_text("o")), Some(output_text("o")));
    let obs = &echo_processor.observers()[0];
    assert_eq!(obs.processed_frames(), vec![shutdown, output_text("o")]);
    assert_eq!(obs.emitted_frames(), vec![]);
}

#[test]
fn observer_records_and_clears() {
    let mut obs = Observer::new();
    obs.record_processed(input_text("a"));
    obs.record_emitted(output_text("b"));
    assert!(obs.processed_contains(|f| f == input_text("a")));
    assert!(!obs.processed_contains(|f| f == output_text("b")));
    assert!(obs.emitted_contains(|f| f == output_text("b")));
    obs.clear();
    assert_eq!(obs.processed_frames(), vec![]);
    assert_eq!(obs.emitted_frames(), vec![]);
}

#[test]
fn pipeline_keeps_processors_in_the_order_added() {
    let mut pipeline = Pipeline::new();
    assert!(pipeline.processors().is_empty());
    pipeline.add_processor(InputProcessor::new());
    pipeline.add_processor(EchoProcessor::new());
    pipeline.add_processor(OutputProcessor::new());
    let kinds: Vec<&str> = pipeline
        .processors()
        .iter()
        .map(|p| match p {
            AnyProcessor::Input(_) => "input",
            AnyProcessor::Echo(_) => "echo",
            AnyProcessor::Output(_) => "output",
        })
        .collect();
    assert_eq!(kinds, vec!["input", "echo", "output"]);
    assert!(matches!(AnyProcessor::from(EchoProcessor::new()), AnyProcessor::Echo(_)));
    assert!(matches!(AnyProcessor::from(InputProcessor::new()), AnyProcessor::Input(_)));
    assert!(matches!(AnyProcessor::from(OutputProcessor::new()), AnyProcessor::Output(_)));
}

#[test]
fn system_frames_are_taken_in_by_every_processor_and_passed_on_by_the_input() {
    let mut input_processor = InputProcessor::new();
    input_processor.add_observer(Observer::new());
    let mut echo_processor = EchoProcessor::new();
    echo_processor.add_observer(Observer::new());
    let mut output_processor = OutputProcessor::new();
    output_processor.add_observer(Observer::new());

    for system in [SystemFrame::StartUp, SystemFrame::Shutdown] {
        let frame = Frame::SystemFrame(system);
        assert_eq!(input_processor.handle(frame.clone()), Some(frame.clone()));
        assert_eq!(echo_processor.handle(frame.clone()), Some(frame.clone()));
        assert_eq!(output_processor.handle(frame.clone()), Some(frame.clone()));
    }
    let both = vec![Frame::SystemFrame(SystemFrame::StartUp), Frame::SystemFrame(SystemFrame::Shutdown)];
    let input_obs = &input_processor.observers()[0];
    assert!(input_obs.processed_contains(|f| matches!(f, Frame::SystemFrame(SystemFrame::StartUp))));
    assert!(input_obs.processed_contains(|f| matches!(f, Frame::SystemFrame(SystemFrame::Shutdown))));
    assert_eq!(input_obs.processed_frames(), both);
    assert_eq!(input_obs.emitted_frames(), both);
    assert_eq!(echo_processor.observers()[0].processed_frames(), both);
    assert_eq!(output_processor.observers()[0].processed_frames(), both);
}

#[test]
fn observers_record_text_pieces_exactly() {
    let delta = |s: &str, finished: bool| TextDelta { content: s.to_string(), finished };
    let out_delta = Frame::DataFrame(DataFrame::OutputTextDeltaFrame(delta("par", false)));
    let in_delta = Frame::DataFrame(DataFrame::InputTextDeltaFrame(delta("tial", true)));
    assert_eq!(out_delta.clone(), out_delta);

    let mut input_processor = InputProcessor::new();
    input_processor.add_observer(Observer::new());
    assert_eq!(input_processor.handle(in_delta.clone()), Some(in_delta.clone()));
    assert_eq!(input_processor.observers()[0].emitted_frames(), vec![in_delta.clone()]);
    assert_eq!(input_processor.observers()[0].processed_frames(), vec![]);

    let mut echo_processor = EchoProcessor::new();
    echo_processor.add_observer(Observer::new());
    assert_eq!(echo_processor.handle(out_delta.clone()), Some(out_delta.clone()));
    assert_eq!(echo_processor.handle(in_delta.clone()), Some(in_delta.clone()));
    assert_eq!(echo_processor.observers()[0].processed_frames(), vec![out_delta, in_delta]);
    assert_eq!(echo_processor.observers()[0].emitted_frames(), vec![]);
}
