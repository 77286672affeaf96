use pipecat_rs::spec::{
    duration_fits, parse_duration_ms, validate_spec, validation_summary, Direction, HumanDuration, Node, Pattern,
    Spec, Step, ValidationErrorKind, DEFAULT_TIME_EPSILON_MS,
};

fn node(id: &str) -> Node {
    Node { id: id.to_string(), kind: "echo".to_string(), config: None }
}

fn pattern() -> Pattern {
    Pattern { msg_type: "text_input".to_string(), body: None }
}

fn await_at(node: &str, within: Option<u64>) -> Step {
    Step::Await {
        node: node.to_string(),
        direction: Direction::Downstream,
        pattern: pattern(),
        within: within.map(HumanDuration),
    }
}

fn send_at(node: &str) -> Step {
    Step::Send { node: node.to_string(), direction: Direction::Upstream, after: HumanDuration(10), pattern: pattern() }
}

fn spec(version: u32, nodes: Vec<Node>, script: Vec<Step>, default_within: Option<u64>) -> Spec {
    Spec {
        version,
        name: "echo".to_string(),
        fail_after: Some(HumanDuration(100)),
        time_epsilon: None,
        default_within: default_within.map(HumanDuration),
        pipeline: nodes,
        script,
    }
}

fn describe(e: &ValidationErrorKind) -> String {
    match e {
        ValidationErrorKind::UnsupportedVersion(v) => format!("version {}", v),
        ValidationErrorKind::DuplicateNodeId(id) => format!("duplicate {}", id),
        ValidationErrorKind::UnknownNode(id, i) => format!("unknown {} {}", id, i),
        ValidationErrorKind::MissingWithin(i) => format!("within {}", i),
    }
}

fn errors(s: &Spec) -> Vec<String> {
    match validate_spec(s) {
        Ok(()) => vec![],
        Err(e) => e.errors.iter().map(describe).collect(),
    }
}

#[test]
fn minimal_valid_example_passes() {
    let s = spec(
        1,
        vec![node("input"), node("echo"), node("output")],
        vec![await_at("input", Some(50)), send_at("input"), await_at("echo", Some(50)), send_at("echo"), await_at("output", Some(60))],
        None,
    );
    assert!(validate_spec(&s).is_ok());
}

#[test]
fn every_error_is_reported_in_order() {
    let s = spec(
        2,
        vec![node("a"), node("b"), node("a"), node("a")],
        vec![await_at("c", None), send_at("d"), await_at("b", None), send_at("b")],
        None,
    );
    assert_eq!(
        errors(&s),
        vec![
            "version 2".to_string(),
            "duplicate a".to_string(),
            "duplicate a".to_string(),
            "unknown c 0".to_string(),
            "within 0".to_string(),
            "unknown d 1".to_string(),
            "within 2".to_string(),
        ]
    );
}

#[test]
fn default_window_covers_await_steps() {
    let s = spec(1, vec![node("a")], vec![await_at("a", None)], Some(20));
    assert!(validate_spec(&s).is_ok());
    let s = spec(1, vec![node("a")], vec![await_at("a", None)], None);
    assert_eq!(errors(&s), vec!["within 0".to_string()]);
}

#[test]
fn unsupported_version_alone() {
    let s = spec(0, vec![], vec![], None);
    assert_eq!(errors(&s), vec!["version 0".to_string()]);
}

#[test]
fn durations_in_milliseconds_and_seconds() {
    assert_eq!(parse_duration_ms("150ms"), Ok(150));
    assert_eq!(parse_duration_ms("2s"), Ok(2000));
    assert_eq!(parse_duration_ms(" 7 ms"), Ok(7));
    assert_eq!(parse_duration_ms("+3s"), Ok(3000));
    assert_eq!(parse_duration_ms("0ms"), Ok(0));
    assert_eq!(parse_duration_ms("1500ms"), Ok(1500));
    assert_eq!(parse_duration_ms("18446744073709551615ms"), Ok(u64::MAX));
}

#[test]
fn bad_durations_are_refused() {
    assert_eq!(parse_duration_ms("xms"), Err("Invalid duration: xms".to_string()));
    assert_eq!(parse_duration_ms("ms"), Err("Invalid duration: ms".to_string()));
    assert_eq!(parse_duration_ms("-1s"), Err("Invalid duration: -1s".to_string()));
    assert_eq!(parse_duration_ms("18446744073709551616ms"), Err("Invalid duration: 18446744073709551616ms".to_string()));
    assert_eq!(parse_duration_ms("10"), Err("Duration must end with 'ms' or 's': 10".to_string()));
    assert_eq!(parse_duration_ms(""), Err("Duration must end with 'ms' or 's': ".to_string()));
    assert_eq!(parse_duration_ms("5m"), Err("Duration must end with 'ms' or 's': 5m".to_string()));
}

#[test]
fn seconds_that_do_not_fit_are_flagged() {
    assert!(duration_fits("18446744073709551s"));
    assert!(!duration_fits("18446744073709552s"));
    assert!(duration_fits("18446744073709552ms"));
    assert!(duration_fits("garbage"));
    assert_eq!(parse_duration_ms("18446744073709551s"), Ok(18446744073709551000));
}

#[test]
fn summary_counts_failed_specs() {
    assert_eq!(validation_summary(0), Ok(()));
    assert_eq!(validation_summary(3), Err("3 spec(s) failed validation".to_string()));
    assert_eq!(validation_summary(12), Err("12 spec(s) failed validation".to_string()));
}

#[test]
fn time_tolerance_defaults_to_five_milliseconds() {
    let mut s = spec(1, vec![node("input")], vec![], None);
    assert_eq!(DEFAULT_TIME_EPSILON_MS, 5);
    assert_eq!(s.effective_time_epsilon(), HumanDuration(5));
    s.time_epsilon = Some(HumanDuration(12));
    assert_eq!(s.effective_time_epsilon(), HumanDuration(12));
}
