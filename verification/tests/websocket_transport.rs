use pipecat_rs::frame::Frame;
use pipecat_rs::transport::{accepts_path, frame_for_content, frame_from_message};
use pipecat_rs::{Endpoint, FrameRegistry, Observer, Pipeline, Transport, WebSocketTransport, WebSocketTransportConfig};

fn transport(port: u16) -> Transport<WebSocketTransport> {
    Transport::<WebSocketTransport>::new(WebSocketTransportConfig { port, host: "localhost" })
}

#[test]
fn test_websocket_pipeline_builds() {
    let t = transport(8002);
    let input = t.input();
    let output = t.output();
    let pipeline = Pipeline::new(vec![Box::new(input), Box::new(output)]);
    assert!(pipeline.is_ok());
    assert_eq!(pipeline.listen_port(), Ok(8002));
    assert_eq!(pipeline.listen_address(), Ok("localhost:8002".to_string()));
}

#[test]
fn test_empty_pipeline_builds() {
    let processors: Vec<Box<Endpoint>> = vec![];
    let pipeline = Pipeline::new(processors);
    assert!(pipeline.is_ok());
}

#[test]
fn empty_pipeline_has_no_listen_address() {
    let pipeline = Pipeline::new(vec![]);
    pipeline.listen_port().unwrap_err();
    pipeline.listen_address().unwrap_err();
}

#[test]
fn transport_endpoints_carry_the_configuration() {
    let t = transport(8003);
    let input = t.input();
    let output = t.output();
    assert_eq!((input.host, input.port), ("localhost", 8003));
    assert_eq!((output.host, output.port), ("localhost", 8003));
    let p = Pipeline::new(vec![Box::new(Endpoint { host: "h", port: 9 })]);
    assert_eq!(p.listen_address(), Ok("localhost:9".to_string()));
}

#[test]
fn only_the_websocket_path_is_accepted() {
    assert!(accepts_path("/v1/ws"));
    assert!(!accepts_path("/ws"));
    assert!(!accepts_path("/v1/ws/"));
    assert!(!accepts_path(""));
}

#[test]
fn messages_with_string_content_make_frames() {
    let f = frame_from_message("{\"type\":\"user_text\",\"content\":\"abc\"}").expect("a frame");
    assert_eq!(f.content, "abc");
    assert!(frame_from_message("{\"content\": 5}").is_none());
    assert!(frame_from_message("[\"content\"]").is_none());
    assert!(frame_from_message("not json").is_none());
    assert!(frame_from_message("{\"type\":\"user_text\"}").is_none());
    assert_eq!(frame_for_content(Some("x".to_string())).map(|f| f.content), Some("x".to_string()));
    assert!(frame_for_content(None).is_none());
}

#[test]
fn test_websocket_input_receives() {
    let mut registry = FrameRegistry::new();
    let input = transport(8003).input();
    registry.record(8003, Frame { content: "stale".to_string() });
    let input_observer = Observer::observe(&mut registry, &input);
    assert!(input_observer.get_last_frame(&registry).is_none());
    registry.record_message(8003, "{\"type\":\"user_text\",\"content\":\"random\"}");
    registry.record_message(8004, "{\"type\":\"user_text\",\"content\":\"elsewhere\"}");
    registry.record_message(8003, "{\"type\":\"user_text\"}");
    let frame = input_observer.get_last_frame(&registry).expect("Frame not received");
    assert_eq!(frame.content, "random");
}

#[test]
fn registry_forgets_and_replaces_frames() {
    let mut registry = FrameRegistry::new();
    registry.record(1, Frame { content: "a".to_string() });
    registry.record(1, Frame { content: "b".to_string() });
    assert_eq!(registry.last_frame(1).map(|f| f.content), Some("b".to_string()));
    registry.forget(1);
    assert!(registry.last_frame(1).is_none());
    let f = Frame { content: "c".to_string() };
    assert_eq!(f.copy().content, "c");
}
