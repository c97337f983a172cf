use whisp::config::RecordingMode;
use whisp::pipeline::{shortcut_action, ShortcutAction};
use whisp::config::{Config, LlmModel};
use whisp::error::AppError;
use whisp::pipeline::validate_start;
use whisp::pipeline::stream_outcome;
use whisp::transcript::{SttEvent, SttResult};
use whisp::pipeline::{is_empty_stt, next_state, transcript_event, PipelineEvent};
use whisp::session::{SessionController, SessionState, SilenceWatchdog, StartRefused, WatchAction};
use whisp::tray::{tray_state_for, TrayState};

#[test]
fn is_empty_stt_treats_whitespace_as_empty() {
    assert!(is_empty_stt(""));
    assert!(is_empty_stt("   "));
    assert!(is_empty_stt("\n\t"));
    assert!(!is_empty_stt("テスト"));
}

#[test]
fn stop_without_session_is_a_no_op() {
    let mut c: SessionController<&str> = SessionController::new();
    assert!(c.stop().is_none());
    assert!(!c.is_active());
    assert_eq!(c.state(), SessionState::Idle);
    assert_eq!(c.current_id(), None);
}

#[test]
fn start_while_active_is_rejected() {
    let mut c = SessionController::new();
    assert_eq!(c.start("first", 0).ok(), Some(1));
    assert!(c.mark_streaming(1));
    match c.start("second", 5) {
        Err(StartRefused::Busy(h)) => assert_eq!(h, "second"),
        _ => panic!("expected the start to be refused"),
    }
    assert_eq!(c.current_id(), Some(1));
    assert_eq!(c.state(), SessionState::Streaming);
}

#[test]
fn stale_watchdog_does_not_stop_newer_session() {
    let mut c = SessionController::new();
    let first = c.start("one", 0).ok().unwrap();
    let stopped = c.stop().unwrap();
    assert_eq!(stopped.session_id, first);
    assert_eq!(stopped.handles, "one");
    let second = c.start("two", 10).ok().unwrap();
    assert_eq!(second, 2);
    assert!(c.mark_streaming(second));
    assert!(c.stop_if_current(first).is_none());
    assert_eq!(c.state(), SessionState::Streaming);
    assert_eq!(c.current_id(), Some(second));
    let s = c.stop_if_current(second).unwrap();
    assert_eq!(s.handles, "two");
    assert_eq!(s.started_at_ms, 10);
    assert!(!c.is_active());
}

#[test]
fn streaming_only_after_connection_of_live_session() {
    let mut c = SessionController::new();
    let id = c.start((), 0).ok().unwrap();
    assert_eq!(c.state(), SessionState::Recording);
    assert!(!c.mark_streaming(id + 1));
    assert_eq!(c.state(), SessionState::Recording);
    assert!(c.mark_streaming(id));
    assert!(!c.mark_streaming(id));
    assert_eq!(c.state(), SessionState::Streaming);
}

#[test]
fn silence_watchdog_requests_one_stop() {
    let mut w = SilenceWatchdog::new(7, 1_000);
    assert_eq!(w.observe(100, 10_000), WatchAction::Continue);
    assert_eq!(w.observe(100, 31_000), WatchAction::Continue);
    assert_eq!(w.observe(100, 31_001), WatchAction::RequestStop(7));
    assert!(w.is_done());
    assert_eq!(w.observe(100, 40_000), WatchAction::Finished);
    assert_eq!(w.observe(100, 90_000), WatchAction::Finished);
}

#[test]
fn loud_peak_restarts_silence() {
    let mut w = SilenceWatchdog::new(3, 0);
    assert_eq!(w.observe(499, 29_000), WatchAction::Continue);
    assert_eq!(w.observe(500, 29_500), WatchAction::Continue);
    assert_eq!(w.observe(0, 31_000), WatchAction::Continue);
    assert_eq!(w.observe(0, 59_500), WatchAction::Continue);
    assert_eq!(w.observe(0, 59_501), WatchAction::RequestStop(3));
}

#[test]
fn pipeline_transitions() {
    let mut s = SessionState::Idle;
    s = next_state(s, PipelineEvent::Started);
    assert_eq!(s, SessionState::Recording);
    s = next_state(s, PipelineEvent::Connected);
    assert_eq!(s, SessionState::Streaming);
    s = next_state(s, PipelineEvent::Stopped);
    assert_eq!(s, SessionState::PostProcessing);
    s = next_state(s, transcript_event("  ").unwrap());
    assert_eq!(s, SessionState::Finishing);
    s = next_state(s, PipelineEvent::Delivered);
    assert_eq!(s, SessionState::Idle);
    assert!(transcript_event("text").is_none());
    assert_eq!(next_state(SessionState::Streaming, PipelineEvent::Failed), SessionState::Error);
    assert_eq!(next_state(SessionState::Error, PipelineEvent::Connected), SessionState::Idle);
    assert_eq!(next_state(SessionState::Idle, PipelineEvent::Failed), SessionState::Idle);
    assert_eq!(
        next_state(SessionState::PostProcessing, PipelineEvent::Processed),
        SessionState::Finishing
    );
}

#[test]
fn tray_follows_stage() {
    assert_eq!(tray_state_for(SessionState::Recording), TrayState::Recording);
    assert_eq!(tray_state_for(SessionState::Streaming), TrayState::Recording);
    assert_eq!(tray_state_for(SessionState::Finishing), TrayState::Idle);
}

#[test]
fn shortcut_actions_by_mode() {
    assert_eq!(shortcut_action(RecordingMode::Toggle, true, false), ShortcutAction::Start);
    assert_eq!(shortcut_action(RecordingMode::Toggle, true, true), ShortcutAction::Stop);
    assert_eq!(shortcut_action(RecordingMode::Toggle, false, true), ShortcutAction::Nothing);
    assert_eq!(shortcut_action(RecordingMode::PushToTalk, true, false), ShortcutAction::Start);
    assert_eq!(shortcut_action(RecordingMode::PushToTalk, true, true), ShortcutAction::Nothing);
    assert_eq!(shortcut_action(RecordingMode::PushToTalk, false, true), ShortcutAction::Stop);
}

#[test]
fn start_needs_keys() {
    let mut c = Config::default_config();
    match validate_start(&c) {
        Err(AppError::MissingApiKey(n)) => assert_eq!(n, "deepgram"),
        _ => panic!("expected the speech key to be missing"),
    }
    c.api_keys.deepgram = "d".to_string();
    match validate_start(&c) {
        Err(AppError::MissingApiKey(n)) => assert_eq!(n, "gemini"),
        _ => panic!("expected the model key to be missing"),
    }
    c.api_keys.gemini = "g".to_string();
    assert!(validate_start(&c).is_ok());
    c.api_keys.deepgram = String::new();
    c.llm_model = LlmModel::Gemini25FlashLiteAudio;
    assert!(validate_start(&c).is_ok());
}

#[test]
fn send_failure_wins_over_received_text() {
    let ok = || Ok(SttResult { transcript: "partial".to_string(), usage: None });
    match stream_outcome(Err("broken pipe".to_string()), ok()) {
        (Err(AppError::WebSocket(m)), Some(SttEvent::Error(e))) => {
            assert_eq!(m, "broken pipe");
            assert_eq!(e, "broken pipe");
        }
        _ => panic!("expected a send failure"),
    }
    match stream_outcome(Ok(()), Err("reset".to_string())) {
        (Err(AppError::WebSocket(m)), Some(SttEvent::Error(_))) => assert_eq!(m, "reset"),
        _ => panic!("expected a receive failure"),
    }
    match stream_outcome(Ok(()), ok()) {
        (Ok(r), None) => assert_eq!(r.transcript, "partial"),
        _ => panic!("expected the transcript"),
    }
}
