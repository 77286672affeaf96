use pipecat_rs::channel_pipeline::echo_processor::EchoProcessor;
use pipecat_rs::channel_pipeline::frame::{ControlFrame, DataFrame, Frame, FrameDirection, FrameMeta, SystemFrame};
use pipecat_rs::channel_pipeline::pipeline::{route, Route};
use pipecat_rs::channel_pipeline::pipeline_component::{
    control_frame, data_frame, system_frame, AfterRound, DrainRound, DrainStage,
};

fn meta() -> FrameMeta {
    FrameMeta { id: uuid::Uuid::nil(), timestamp: tokio::time::Instant::now() }
}

#[test]
fn echo_converts_input_to_output_and_routes_downstream() {
    let echo = EchoProcessor;
    let m = meta();
    // Data injected into component 0 reaches its processor travelling downstream.
    let inbound = data_frame(m, DataFrame::InputText("hello".to_string()));
    let answer = echo.process_frame(inbound).expect("echo answers an input text");
    assert_eq!(answer, Frame::Data(m, FrameDirection::Downstream, DataFrame::OutputText("hello".to_string())));
    match route(0, answer, 2) {
        Route::Deliver(1, DataFrame::OutputText(s)) => assert_eq!(s, "hello"),
        other => panic!("expected delivery of OutputText to 1, got: {:?}", other),
    }
}

#[test]
fn echo_ignores_other_frames() {
    let echo = EchoProcessor;
    assert_eq!(echo.process_frame(Frame::System(meta(), SystemFrame::Start)), None);
    assert_eq!(echo.process_frame(Frame::Control(meta(), ControlFrame::End)), None);
    let out = Frame::Data(meta(), FrameDirection::Upstream, DataFrame::OutputText("x".to_string()));
    assert_eq!(echo.process_frame(out), None);
    let m = meta();
    let up = Frame::Data(m, FrameDirection::Upstream, DataFrame::InputText("y".to_string()));
    assert_eq!(
        echo.process_frame(up),
        Some(Frame::Data(m, FrameDirection::Upstream, DataFrame::OutputText("y".to_string())))
    );
}

#[test]
fn router_broadcasts_and_delivers_to_neighbours() {
    assert!(matches!(route(1, Frame::System(meta(), SystemFrame::Start), 3), Route::BroadcastSystem(SystemFrame::Start)));
    assert!(matches!(route(1, Frame::Control(meta(), ControlFrame::Stop), 3), Route::BroadcastControl(ControlFrame::Stop)));
    let d = |dir| Frame::Data(meta(), dir, DataFrame::InputText("t".to_string()));
    assert!(matches!(route(1, d(FrameDirection::Downstream), 3), Route::Deliver(2, _)));
    assert!(matches!(route(1, d(FrameDirection::Upstream), 3), Route::Deliver(0, _)));
    assert!(matches!(route(2, d(FrameDirection::Downstream), 3), Route::Drop));
    assert!(matches!(route(0, d(FrameDirection::Upstream), 3), Route::Drop));
    assert!(matches!(route(usize::MAX, d(FrameDirection::Downstream), 3), Route::Drop));
    assert!(matches!(route(7, d(FrameDirection::Upstream), 3), Route::Drop));
}

#[test]
fn inboxes_are_drained_by_priority() {
    let mut round = DrainRound::start();
    assert_eq!(round.stage, DrainStage::System);
    round.record(true);
    assert_eq!(round.stage, DrainStage::System);
    round.record(false);
    assert_eq!(round.stage, DrainStage::Control);
    round.record(false);
    assert_eq!(round.stage, DrainStage::Data);
    round.record(false);
    assert_eq!(round.stage, DrainStage::Done);
    assert_eq!(round.after(), AfterRound::YieldAndDrainAgain);
    let mut idle = DrainRound::start();
    idle.record(false);
    idle.record(false);
    idle.record(false);
    assert_eq!(idle.after(), AfterRound::WaitForAny);
}

#[test]
fn inbox_frames_are_wrapped_for_the_processor() {
    let m = meta();
    assert_eq!(system_frame(m, SystemFrame::Start), Frame::System(m, SystemFrame::Start));
    assert_eq!(control_frame(m, ControlFrame::Stop), Frame::Control(m, ControlFrame::Stop));
    assert_eq!(
        data_frame(m, DataFrame::OutputText("o".to_string())),
        Frame::Data(m, FrameDirection::Downstream, DataFrame::OutputText("o".to_string()))
    );
}
