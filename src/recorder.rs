//! The handle of a running capture thread.
use vstd::prelude::*;

verus! {

/// The sending half of a std channel, opaque here.
#[verifier::external_type_specification]
#[verifier::external_body]
#[verifier::reject_recursive_types(T)]
pub struct ExSender<T>(std::sync::mpsc::Sender<T>);

/// Relies on `std::sync::mpsc::Sender::send`: hands the stop signal to the
/// capture thread, or fails when that thread has already ended; either
/// outcome is fine here.
#[verifier::external_body]
fn send_stop(tx: std::sync::mpsc::Sender<()>) {
    let _ = tx.send(());
}

/// Owns the capture thread of one recording: stopping it signals the thread
/// to tear the device stream down. Dropping the handle drops the sender,
/// which ends the thread's wait as well, so no device stream outlives it.
pub struct RecorderHandle {
    stop_tx: Option<std::sync::mpsc::Sender<()>>,
    sample_rate: u32,
}

impl RecorderHandle {
    /// The rate the device was opened at.
    pub closed spec fn rate(&self) -> u32 {
        self.sample_rate
    }

    /// Whether the stop signal has been sent.
    pub closed spec fn stopped(&self) -> bool {
        self.stop_tx is None
    }

    /// The handle of a thread that runs a device stream at `sample_rate` and
    /// ends it when `stop_tx` signals.
    pub fn from_parts(stop_tx: std::sync::mpsc::Sender<()>, sample_rate: u32) -> (r: Self)
        ensures
            r.rate() == sample_rate,
            !r.stopped(),
    {
        RecorderHandle { stop_tx: Some(stop_tx), sample_rate }
    }

    /// Signals the capture thread to stop; the signal is sent once, later
    /// calls do nothing.
    pub fn stop(&mut self)
        ensures
            final(self).stopped(),
            final(self).rate() == old(self).rate(),
    {
        if let Some(tx) = self.stop_tx.take() {
            send_stop(tx);
        }
    }

    /// Whether the stop signal has been sent.
    pub fn is_stopped(&self) -> (r: bool)
        ensures
            r == self.stopped(),
    {
        self.stop_tx.is_none()
    }

    /// The rate the device was opened at.
    pub fn sample_rate(&self) -> (r: u32)
        ensures
            r == self.rate(),
    {
        self.sample_rate
    }
}

} // verus!
