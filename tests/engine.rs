use pericortex::engine::{Action, Event, Phase, TaskEngine, COOLDOWN_SECS, GRACE_SECS};
use pericortex::frames::Frame;

fn engine(service: &str, identity: &str, message_size: usize, limit: Option<usize>) -> TaskEngine {
    TaskEngine::new(service.to_string(), identity.to_string(), message_size, limit)
}

fn frames_of(action: Action) -> (Vec<Frame>, Option<usize>) {
    match action {
        Action::Stream(frames, n) => (frames, Some(n)),
        Action::Send(frames) => (frames, None),
        _ => panic!("expected frames to send"),
    }
}

fn expect_request(action: Action, service: &str) {
    match action {
        Action::RequestTask(s) => assert_eq!(s, service),
        _ => panic!("expected a task request"),
    }
}

/// Drives one task whose conversion succeeds, feeding the output in chunks of
/// the size the engine asks for; returns every frame sent to the sink.
fn deliver(e: &mut TaskEngine, task_id: &str, input: &[u8], output: &[u8]) -> Vec<Frame> {
    expect_request(e.step(Event::Start), "echo_service");
    assert!(matches!(e.step(Event::TaskId { id: task_id.to_string(), more: true }), Action::ReceiveInput));
    assert!(matches!(
        e.step(Event::InputFrame { written: input.len(), more: false }),
        Action::Convert
    ));
    let mut sent = Vec::new();
    let mut action = e.step(Event::Converted(true));
    let mut offset = 0;
    loop {
        let (frames, read) = frames_of(action);
        sent.extend(frames);
        match read {
            Some(n) => {
                let end = std::cmp::min(offset + n, output.len());
                let chunk = output[offset..end].to_vec();
                offset = end;
                action = e.step(Event::OutputChunk(chunk));
            }
            None => break,
        }
    }
    sent
}

#[test]
fn mock_round_trip() {
    let payload = "cortex peripherals - echo worker test";
    let mut e = engine("echo_service", "echo worker", 100_000, Some(1));
    let sent = deliver(&mut e, "1", payload.as_bytes(), payload.as_bytes());
    assert_eq!(sent.len(), 4);
    assert_eq!(sent[0].data, b"echo worker".to_vec());
    assert_eq!(sent[1].data, b"echo_service".to_vec());
    assert_eq!(sent[2].data, b"1".to_vec());
    assert_eq!(sent[3].data, payload.as_bytes().to_vec());
    assert!(sent[0].more && sent[1].more && sent[2].more);
    assert!(!sent[3].more);
    assert!(matches!(e.step(Event::Sent), Action::Sleep(GRACE_SECS)));
    assert!(matches!(e.step(Event::Slept), Action::Stop));
    assert_eq!(e.completed(), 1);
    assert_eq!(e.phase(), Phase::Stopped);
}

#[test]
fn echo_service_chunked_delivery() {
    let input: Vec<u8> = (0..250_000u32).map(|i| (i % 251) as u8).collect();
    let mut e = engine("echo_service", "host:echo_service:01", 100_000, None);
    let sent = deliver(&mut e, "task-7", &input, &input);
    assert_eq!(sent.len(), 6);
    assert_eq!(sent[1].data, b"echo_service".to_vec());
    assert_eq!(sent[2].data, b"task-7".to_vec());
    let sizes: Vec<usize> = sent[3..].iter().map(|f| f.data.len()).collect();
    assert_eq!(sizes, vec![100_000, 100_000, 50_000]);
    let flags: Vec<bool> = sent[3..].iter().map(|f| f.more).collect();
    assert_eq!(flags, vec![true, true, false]);
    let joined: Vec<u8> = sent[3..].iter().flat_map(|f| f.data.clone()).collect();
    assert_eq!(joined, input);
    // success pays no cooldown: the next task is requested at once
    expect_request(e.step(Event::Sent), "echo_service");
}

#[test]
fn exact_multiple_ends_with_empty_frame() {
    let input = vec![7u8; 200];
    let mut e = engine("echo_service", "w", 100, None);
    let sent = deliver(&mut e, "2", &input, &input);
    let sizes: Vec<usize> = sent[3..].iter().map(|f| f.data.len()).collect();
    assert_eq!(sizes, vec![100, 100, 0]);
    assert!(!sent[5].more);
    assert!(sent[4].more);
}

#[test]
fn empty_output_is_one_final_empty_frame() {
    let mut e = engine("echo_service", "w", 10, None);
    let sent = deliver(&mut e, "3", b"abc", b"");
    assert_eq!(sent.len(), 4);
    assert!(sent[3].data.is_empty());
    assert!(!sent[3].more);
}

#[test]
fn empty_input_is_reported_without_conversion() {
    let mut e = engine("echo_service", "w", 10, None);
    expect_request(e.step(Event::Start), "echo_service");
    assert!(matches!(e.step(Event::TaskId { id: "9".to_string(), more: true }), Action::ReceiveInput));
    let (frames, read) = frames_of(e.step(Event::InputFrame { written: 0, more: false }));
    assert_eq!(read, None);
    assert_eq!(frames.len(), 4);
    assert_eq!(frames[0].data, b"w".to_vec());
    assert_eq!(frames[1].data, b"echo_service".to_vec());
    assert_eq!(frames[2].data, b"9".to_vec());
    assert!(frames[3].data.is_empty());
    assert!(!frames[3].more);
    assert!(matches!(e.step(Event::Sent), Action::Sleep(COOLDOWN_SECS)));
    expect_request(e.step(Event::Slept), "echo_service");
    assert_eq!(e.completed(), 1);
}

#[test]
fn empty_frames_then_data_are_converted() {
    let mut e = engine("s", "w", 10, None);
    expect_request(e.step(Event::Start), "s");
    assert!(matches!(e.step(Event::TaskId { id: "1".to_string(), more: true }), Action::ReceiveInput));
    assert!(matches!(e.step(Event::InputFrame { written: 0, more: true }), Action::ReceiveInput));
    assert!(matches!(e.step(Event::InputFrame { written: 5, more: true }), Action::ReceiveInput));
    assert!(matches!(e.step(Event::InputFrame { written: 0, more: false }), Action::Convert));
}

#[test]
fn failed_conversions_keep_the_worker_going() {
    let mut e = engine("tex_to_html", "w", 10, None);
    expect_request(e.step(Event::Start), "tex_to_html");
    for round in 0..3 {
        let id = format!("t{}", round);
        assert!(matches!(e.step(Event::TaskId { id: id.clone(), more: true }), Action::ReceiveInput));
        assert!(matches!(e.step(Event::InputFrame { written: 4, more: false }), Action::Convert));
        let (frames, read) = frames_of(e.step(Event::Converted(false)));
        assert_eq!(read, None);
        assert_eq!(frames.len(), 4);
        assert_eq!(frames[2].data, id.as_bytes().to_vec());
        assert!(frames[3].data.is_empty() && !frames[3].more);
        assert!(matches!(e.step(Event::Sent), Action::Sleep(60)));
        expect_request(e.step(Event::Slept), "tex_to_html");
    }
    assert_eq!(e.completed(), 3);
}

#[test]
fn iteration_limit_runs_exactly_that_many_tasks() {
    let mut e = engine("echo_service", "w", 4, Some(2));
    let mut requests = 0;
    let mut event = Event::Start;
    let mut steps = 0;
    loop {
        steps += 1;
        assert!(steps < 100);
        event = match e.step(event) {
            Action::RequestTask(_) => {
                requests += 1;
                Event::TaskId { id: format!("{}", requests), more: true }
            }
            Action::ReceiveInput => Event::InputFrame { written: 3, more: false },
            Action::Convert => Event::Converted(true),
            Action::Stream(_, _) => Event::OutputChunk(vec![1, 2, 3]),
            Action::Send(_) => Event::Sent,
            Action::Sleep(_) => Event::Slept,
            Action::Stop => break,
        };
    }
    assert_eq!(requests, 2);
    assert_eq!(e.completed(), 2);
    assert_eq!(e.phase(), Phase::Stopped);
    assert!(matches!(e.step(Event::Start), Action::Stop));
}

#[test]
fn zero_limit_stops_at_once() {
    let mut e = engine("echo_service", "w", 4, Some(0));
    assert!(matches!(e.step(Event::Start), Action::Stop));
    assert_eq!(e.completed(), 0);
}

#[test]
fn transport_failure_while_receiving_reports_the_task() {
    let mut e = engine("echo_service", "w", 4, None);
    expect_request(e.step(Event::Start), "echo_service");
    assert!(matches!(e.step(Event::TaskId { id: "5".to_string(), more: true }), Action::ReceiveInput));
    assert!(matches!(e.step(Event::InputFrame { written: 3, more: true }), Action::ReceiveInput));
    let (frames, read) = frames_of(e.step(Event::TransportFailed));
    assert_eq!(read, None);
    assert_eq!(frames.len(), 4);
    assert_eq!(frames[2].data, b"5".to_vec());
    assert!(frames[3].data.is_empty() && !frames[3].more);
    assert!(matches!(e.step(Event::Sent), Action::Sleep(COOLDOWN_SECS)));
    expect_request(e.step(Event::Slept), "echo_service");
    assert_eq!(e.completed(), 1);
    assert_eq!(e.phase(), Phase::AwaitingTaskId);
}

#[test]
fn transport_failure_while_delivering_pauses() {
    let mut e = engine("echo_service", "w", 4, None);
    let _ = e.step(Event::Start);
    let _ = e.step(Event::TaskId { id: "6".to_string(), more: true });
    assert!(matches!(e.step(Event::InputFrame { written: 3, more: false }), Action::Convert));
    assert!(matches!(e.step(Event::Converted(true)), Action::Stream(_, 4)));
    assert!(matches!(e.step(Event::TransportFailed), Action::Sleep(COOLDOWN_SECS)));
    assert_eq!(e.phase(), Phase::CoolingDown);
    expect_request(e.step(Event::Slept), "echo_service");
    assert_eq!(e.completed(), 1);
}

#[test]
fn task_id_without_input_is_reported_at_once() {
    let mut e = engine("echo_service", "w", 10, None);
    expect_request(e.step(Event::Start), "echo_service");
    let (frames, read) = frames_of(e.step(Event::TaskId { id: "42".to_string(), more: false }));
    assert_eq!(read, None);
    assert_eq!(frames.len(), 4);
    assert_eq!(frames[0].data, b"w".to_vec());
    assert_eq!(frames[1].data, b"echo_service".to_vec());
    assert_eq!(frames[2].data, b"42".to_vec());
    assert!(frames[0].more && frames[1].more && frames[2].more);
    assert!(frames[3].data.is_empty() && !frames[3].more);
    assert!(matches!(e.step(Event::Sent), Action::Sleep(COOLDOWN_SECS)));
    expect_request(e.step(Event::Slept), "echo_service");
    assert_eq!(e.completed(), 1);
}

#[test]
fn unanswered_request_pauses_and_is_not_counted() {
    let mut e = engine("echo_service", "w", 10, Some(1));
    expect_request(e.step(Event::Start), "echo_service");
    assert!(matches!(e.step(Event::TransportFailed), Action::Sleep(COOLDOWN_SECS)));
    assert_eq!(e.phase(), Phase::Backoff);
    assert_eq!(e.completed(), 0);
    expect_request(e.step(Event::Slept), "echo_service");
    assert_eq!(e.completed(), 0);
    // the one task the limit allows is still run
    assert!(matches!(
        e.step(Event::TaskId { id: "1".to_string(), more: false }),
        Action::Send(_)
    ));
    assert!(matches!(e.step(Event::Sent), Action::Sleep(COOLDOWN_SECS)));
    assert!(matches!(e.step(Event::Slept), Action::Sleep(GRACE_SECS)));
    assert!(matches!(e.step(Event::Slept), Action::Stop));
    assert_eq!(e.completed(), 1);
}

#[test]
fn failing_run_reports_every_task_under_a_limit() {
    let mut e = engine("tex_to_html", "w", 10, Some(3));
    let mut event = Event::Start;
    let mut requests = 0;
    let mut reports = Vec::new();
    let mut last_was_cooldown = false;
    let mut steps = 0;
    loop {
        steps += 1;
        assert!(steps < 100);
        let action = e.step(event);
        event = match action {
            Action::RequestTask(_) => {
                assert!(requests == 0 || last_was_cooldown);
                requests += 1;
                Event::TaskId { id: format!("t{}", requests), more: true }
            }
            Action::ReceiveInput => Event::InputFrame { written: 2, more: false },
            Action::Convert => Event::Converted(false),
            Action::Stream(_, _) => panic!("a failed conversion streams nothing"),
            Action::Send(frames) => {
                assert_eq!(frames.len(), 4);
                assert!(frames[3].data.is_empty() && !frames[3].more);
                reports.push(String::from_utf8(frames[2].data.clone()).unwrap());
                Event::Sent
            }
            Action::Sleep(secs) => {
                last_was_cooldown = secs == COOLDOWN_SECS;
                Event::Slept
            }
            Action::Stop => break,
        };
    }
    assert_eq!(requests, 3);
    assert_eq!(reports, vec!["t1", "t2", "t3"]);
    assert_eq!(e.completed(), 3);
}

#[test]
fn identity_is_kept() {
    let e = engine("echo_service", "host:echo_service:03", 4, None);
    assert_eq!(e.identity(), "host:echo_service:03");
    assert_eq!(e.phase(), Phase::Idle);
}
