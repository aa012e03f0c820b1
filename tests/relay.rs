use atc_sim::relay::{on_telemetry_frame, writer_step, TelemetryAction, TelemetryFrame, WriterAction, WriterEvent, WriterState};

fn run_telemetry(frames: Vec<TelemetryFrame<u32>>) -> Vec<u32> {
    let mut out = Vec::new();
    for f in frames {
        match on_telemetry_frame(f) {
            TelemetryAction::Forward { batch } => out.push(batch),
            TelemetryAction::Continue => {}
            TelemetryAction::Stop => break,
        }
    }
    out
}

#[test]
fn malformed_frame_is_dropped_and_reading_goes_on() {
    assert!(matches!(
        on_telemetry_frame::<u32>(TelemetryFrame::Text { decoded: None }),
        TelemetryAction::Continue
    ));
    let got = run_telemetry(vec![
        TelemetryFrame::Text { decoded: Some(1) },
        TelemetryFrame::Text { decoded: None },
        TelemetryFrame::Ping,
        TelemetryFrame::Text { decoded: Some(2) },
        TelemetryFrame::Close,
        TelemetryFrame::Text { decoded: Some(3) },
    ]);
    assert_eq!(got, vec![1, 2]);
}

#[test]
fn transport_error_stops_reader() {
    assert!(matches!(on_telemetry_frame::<u32>(TelemetryFrame::Failed), TelemetryAction::Stop));
    assert!(matches!(on_telemetry_frame::<u32>(TelemetryFrame::Other), TelemetryAction::Continue));
}

fn drive(frames: &[&str], fail_at: Option<usize>) -> (Vec<String>, bool) {
    let mut state = WriterState::AwaitingCommand;
    let mut written = Vec::new();
    let mut k = 0;
    loop {
        let ev = match state {
            WriterState::AwaitingCommand => {
                if k < frames.len() {
                    k += 1;
                    WriterEvent::Command { frame: frames[k - 1].to_string() }
                } else {
                    WriterEvent::ChannelClosed
                }
            }
            WriterState::Writing { .. } => {
                if fail_at == Some(k - 1) { WriterEvent::WriteFailed } else { WriterEvent::WriteDone }
            }
            WriterState::Stopped => return (written, true),
        };
        let (next, action) = writer_step(state, ev);
        match action {
            WriterAction::Write { frame } => {
                if fail_at != Some(k - 1) {
                    written.push(frame);
                }
            }
            WriterAction::Stop => return (written, k == frames.len()),
            _ => {}
        }
        state = next;
    }
}

#[test]
fn writer_keeps_queue_order() {
    let (written, _) = drive(&["c1", "c2", "c3"], None);
    assert_eq!(written, vec!["c1", "c2", "c3"]);
}

#[test]
fn writer_stops_and_drops_rest_after_failure() {
    let (written, drained) = drive(&["c1", "c2", "c3", "c4"], Some(2));
    assert_eq!(written, vec!["c1", "c2"]);
    assert!(!drained);
}

#[test]
fn stopped_writer_ignores_events() {
    let (s, a) = writer_step(WriterState::Stopped, WriterEvent::Command { frame: "x".to_string() });
    assert!(matches!(s, WriterState::Stopped));
    assert!(matches!(a, WriterAction::Stop));
}
