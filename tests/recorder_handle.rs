use whisp::recorder::RecorderHandle;

#[test]
fn stop_signals_once_and_keeps_rate() {
    let (tx, rx) = std::sync::mpsc::channel::<()>();
    let mut h = RecorderHandle::from_parts(tx, 44100);
    assert!(!h.is_stopped());
    h.stop();
    assert!(h.is_stopped());
    assert!(rx.try_recv().is_ok());
    h.stop();
    assert_eq!(h.sample_rate(), 44100);
    drop(h);
    assert!(rx.recv().is_err());
}
