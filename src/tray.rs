//! States the tray icon shows.
use vstd::prelude::*;

verus! {

/// Whether the tray shows a recording.
#[derive(Clone, Copy, Debug, PartialEq, Eq, Structural)]
pub enum TrayState {
    Idle,
    Recording,
}

/// The tray state for a pipeline stage: recording while audio is captured
/// or streamed, idle otherwise.
pub fn tray_state_for(s: crate::session::SessionState) -> (r: TrayState)
    ensures
        r == (if s == crate::session::SessionState::Recording || s
            == crate::session::SessionState::Streaming {
            TrayState::Recording
        } else {
            TrayState::Idle
        }),
{
    match s {
        crate::session::SessionState::Recording | crate::session::SessionState::Streaming => TrayState::Recording,
        _ => TrayState::Idle,
    }
}

} // verus!
