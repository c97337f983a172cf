//! The session controller: at most one active recording, stops honoured
//! only for the live session, and the silence watchdog's decisions.
use vstd::prelude::*;

verus! {

/// Ceiling of one recording, in seconds.
pub const MAX_RECORDING_SECS: u64 = 120;

/// Silence longer than this ends a recording, in milliseconds.
pub const SILENCE_TIMEOUT_MS: u64 = 30000;

/// Peak amplitude at or above which a chunk counts as sound.
pub const SILENCE_THRESHOLD: u16 = 500;

/// Stage of the recording pipeline.
#[derive(PartialEq, Eq, Structural, Clone, Copy, Debug)]
pub enum SessionState {
    Idle,
    Recording,
    Streaming,
    PostProcessing,
    Finishing,
    Error,
}

/// The live session held in the slot, with the handles it owns.
pub struct ActiveSession<H> {
    pub session_id: u64,
    pub state: SessionState,
    pub started_at_ms: u64,
    pub handles: H,
}

/// What the slot shows of a live session.
pub struct LiveView {
    pub session_id: u64,
    pub state: SessionState,
}

/// The controller in mathematical terms: the live session, if any, and the
/// last identifier handed out.
pub struct ControllerView {
    pub live: Option<LiveView>,
    pub last_id: u64,
}

/// Why a start was refused; the handles come back to the caller.
pub enum StartRefused<H> {
    /// A session is already live.
    Busy(H),
    /// Every session identifier has been used.
    IdsExhausted(H),
}

/// Holder of the one session slot.
pub struct SessionController<H> {
    slot: Option<ActiveSession<H>>,
    last_id: u64,
}

pub open spec fn live_of<H>(s: Option<ActiveSession<H>>) -> Option<LiveView> {
    match s {
        Some(a) => Some(LiveView { session_id: a.session_id, state: a.state }),
        None => None,
    }
}

impl<H> View for SessionController<H> {
    type V = ControllerView;

    closed spec fn view(&self) -> ControllerView {
        ControllerView { live: live_of(self.slot), last_id: self.last_id }
    }
}

impl<H> SessionController<H> {
    /// The controller's invariant: a live session bears an identifier that
    /// was handed out.
    pub open spec fn wf(&self) -> bool {
        self@.live matches Some(l) ==> 1 <= l.session_id <= self@.last_id
    }

    /// A controller with an empty slot.
    pub fn new() -> (r: Self)
        ensures
            r@.live is None,
            r@.last_id == 0,
            r.wf(),
    {
        SessionController { slot: None, last_id: 0 }
    }

    /// Whether a session is live.
    pub fn is_active(&self) -> (r: bool)
        ensures
            r == self@.live is Some,
    {
        self.slot.is_some()
    }

    /// The identifier of the live session.
    pub fn current_id(&self) -> (r: Option<u64>)
        ensures
            r == (match self@.live {
                Some(l) => Some(l.session_id),
                None => None,
            }),
    {
        match &self.slot {
            Some(s) => Some(s.session_id),
            None => None,
        }
    }

    /// The state of the live session, `Idle` when there is none.
    pub fn state(&self) -> (r: SessionState)
        ensures
            r == (match self@.live {
                Some(l) => l.state,
                None => SessionState::Idle,
            }),
    {
        match &self.slot {
            Some(s) => s.state,
            None => SessionState::Idle,
        }
    }

    /// Starts a session in one step: refused, with the slot untouched, while
    /// a session is live; else the next identifier is taken and the session
    /// enters `Recording`.
    pub fn start(&mut self, handles: H, now_ms: u64) -> (r: Result<u64, StartRefused<H>>)
        requires
            old(self).wf(),
        ensures
            final(self).wf(),
            old(self)@.live is Some ==> (r matches Err(StartRefused::Busy(_))) && final(self)@
                == old(self)@,
            old(self)@.live is None && old(self)@.last_id == u64::MAX ==> (r matches Err(
                StartRefused::IdsExhausted(_),
            )) && final(self)@ == old(self)@,
            old(self)@.live is None && old(self)@.last_id < u64::MAX ==> r == Ok::<
                u64,
                StartRefused<H>,
            >((old(self)@.last_id + 1) as u64) && final(self)@ == (ControllerView {
                live: Some(
                    LiveView {
                        session_id: (old(self)@.last_id + 1) as u64,
                        state: SessionState::Recording,
                    },
                ),
                last_id: (old(self)@.last_id + 1) as u64,
            }),
    {
        if self.slot.is_some() {
            return Err(StartRefused::Busy(handles));
        }
        if self.last_id == u64::MAX {
            return Err(StartRefused::IdsExhausted(handles));
        }
        let id = self.last_id + 1;
        self.last_id = id;
        self.slot = Some(
            ActiveSession { session_id: id, state: SessionState::Recording, started_at_ms: now_ms, handles },
        );
        Ok(id)
    }

    /// The stream of session `session_id` has connected: a live session of
    /// that identifier in `Recording` moves to `Streaming`; anything else is
    /// left as it is.
    pub fn mark_streaming(&mut self, session_id: u64) -> (r: bool)
        requires
            old(self).wf(),
        ensures
            final(self).wf(),
            r == (old(self)@.live matches Some(l) && l.session_id == session_id && l.state
                == SessionState::Recording),
            r ==> final(self)@ == (ControllerView {
                live: Some(LiveView { session_id, state: SessionState::Streaming }),
                ..old(self)@
            }),
            !r ==> final(self)@ == old(self)@,
    {
        match &mut self.slot {
            Some(s) => {
                if s.session_id == session_id && s.state == SessionState::Recording {
                    s.state = SessionState::Streaming;
                    true
                } else {
                    false
                }
            },
            None => false,
        }
    }

    /// Ends the live session, handing it back for teardown; with none live
    /// this does nothing.
    pub fn stop(&mut self) -> (r: Option<ActiveSession<H>>)
        requires
            old(self).wf(),
        ensures
            final(self).wf(),
            live_of(r) == old(self)@.live,
            final(self)@ == (ControllerView { live: None, ..old(self)@ }),
            old(self)@.live is None ==> r is None && final(self)@ == old(self)@,
    {
        self.slot.take()
    }

    /// Ends the live session only if it bears `session_id`; a request from
    /// a session already replaced changes nothing.
    pub fn stop_if_current(&mut self, session_id: u64) -> (r: Option<ActiveSession<H>>)
        requires
            old(self).wf(),
        ensures
            final(self).wf(),
            (old(self)@.live matches Some(l) && l.session_id == session_id) ==> live_of(r)
                == old(self)@.live && final(self)@ == (ControllerView {
                live: None,
                ..old(self)@
            }),
            !(old(self)@.live matches Some(l) && l.session_id == session_id) ==> r is None
                && final(self)@ == old(self)@,
    {
        let is_current = match &self.slot {
            Some(s) => s.session_id == session_id,
            None => false,
        };
        if is_current {
            self.slot.take()
        } else {
            None
        }
    }
}

/// What the silence watchdog asks for after one peak.
#[derive(PartialEq, Eq, Structural, Clone, Copy, Debug)]
pub enum WatchAction {
    /// Keep observing.
    Continue,
    /// Ask to stop the session of this identifier; the watchdog is done.
    RequestStop(u64),
    /// The watchdog has already asked once and no longer observes.
    Finished,
}

/// The silence watchdog in mathematical terms.
pub struct WatchView {
    pub session_id: u64,
    pub last_loud_ms: u64,
    pub done: bool,
}

/// Milliseconds from `from` to `to`, 0 when the clock reads earlier.
pub open spec fn elapsed_ms(from: u64, to: u64) -> int {
    if to >= from {
        to - from
    } else {
        0
    }
}

/// The watchdog after one peak observed at `now_ms`, and what it asks for:
/// once done it stays done; a loud peak restarts the silence; a quiet one
/// once the silence exceeds the ceiling asks, once, to stop its session.
pub open spec fn watch_step(w: WatchView, peak: u16, now_ms: u64) -> (WatchView, WatchAction) {
    if w.done {
        (w, WatchAction::Finished)
    } else if peak >= SILENCE_THRESHOLD {
        (WatchView { last_loud_ms: now_ms, ..w }, WatchAction::Continue)
    } else if elapsed_ms(w.last_loud_ms, now_ms) > SILENCE_TIMEOUT_MS {
        (WatchView { done: true, ..w }, WatchAction::RequestStop(w.session_id))
    } else {
        (w, WatchAction::Continue)
    }
}

/// Decisions of the silence watchdog of one session.
pub struct SilenceWatchdog {
    session_id: u64,
    last_loud_ms: u64,
    done: bool,
}

impl View for SilenceWatchdog {
    type V = WatchView;

    closed spec fn view(&self) -> WatchView {
        WatchView { session_id: self.session_id, last_loud_ms: self.last_loud_ms, done: self.done }
    }
}

impl SilenceWatchdog {
    /// A watchdog for `session_id`, counting silence from `now_ms`.
    pub fn new(session_id: u64, now_ms: u64) -> (r: Self)
        ensures
            r@ == (WatchView { session_id, last_loud_ms: now_ms, done: false }),
    {
        SilenceWatchdog { session_id, last_loud_ms: now_ms, done: false }
    }

    /// Takes in the peak amplitude of one chunk, observed at `now_ms`.
    pub fn observe(&mut self, peak: u16, now_ms: u64) -> (r: WatchAction)
        ensures
            (final(self)@, r) == watch_step(old(self)@, peak, now_ms),
    {
        if self.done {
            return WatchAction::Finished;
        }
        if peak >= SILENCE_THRESHOLD {
            self.last_loud_ms = now_ms;
            return WatchAction::Continue;
        }
        if now_ms >= self.last_loud_ms && now_ms - self.last_loud_ms > SILENCE_TIMEOUT_MS {
            self.done = true;
            return WatchAction::RequestStop(self.session_id);
        }
        WatchAction::Continue
    }

    /// Whether the watchdog has asked to stop and no longer observes.
    pub fn is_done(&self) -> (r: bool)
        ensures
            r == self@.done,
    {
        self.done
    }
}

/// The watchdog after a sequence of (peak, time) observations.
pub open spec fn watch_run(w: WatchView, obs: Seq<(u16, u64)>) -> WatchView
    decreases obs.len(),
{
    if obs.len() == 0 {
        w
    } else {
        watch_step(watch_run(w, obs.drop_last()), obs.last().0, obs.last().1).0
    }
}

/// How many stop requests a sequence of observations draws.
pub open spec fn stop_requests(w: WatchView, obs: Seq<(u16, u64)>) -> nat
    decreases obs.len(),
{
    if obs.len() == 0 {
        0
    } else {
        let before = watch_run(w, obs.drop_last());
        stop_requests(w, obs.drop_last()) + if watch_step(
            before,
            obs.last().0,
            obs.last().1,
        ).1 is RequestStop {
            1nat
        } else {
            0nat
        }
    }
}

proof fn lemma_stops_bounded(w: WatchView, obs: Seq<(u16, u64)>)
    ensures
        stop_requests(w, obs) <= 1,
        stop_requests(w, obs) == 1 ==> watch_run(w, obs).done,
        w.done ==> stop_requests(w, obs) == 0 && watch_run(w, obs).done,
        !watch_run(w, obs).done ==> stop_requests(w, obs) == 0,
    decreases obs.len(),
{
    if obs.len() > 0 {
        lemma_stops_bounded(w, obs.drop_last());
    }
}

proof fn lemma_quiet_run(w: WatchView, obs: Seq<(u16, u64)>)
    requires
        !w.done,
        forall|i: int| 0 <= i < obs.len() ==> (#[trigger] obs[i]).0 < SILENCE_THRESHOLD,
    ensures
        watch_run(w, obs).last_loud_ms == w.last_loud_ms,
        watch_run(w, obs).session_id == w.session_id,
        watch_run(w, obs).done <==> exists|i: int|
            0 <= i < obs.len() && elapsed_ms(w.last_loud_ms, (#[trigger] obs[i]).1)
                > SILENCE_TIMEOUT_MS,
    decreases obs.len(),
{
    if obs.len() > 0 {
        let init = obs.drop_last();
        assert forall|i: int| 0 <= i < init.len() implies (#[trigger] init[i]).0
            < SILENCE_THRESHOLD by {
            assert(init[i] == obs[i]);
        }
        lemma_quiet_run(w, init);
        if watch_run(w, init).done {
            let i = choose|i: int|
                0 <= i < init.len() && elapsed_ms(w.last_loud_ms, (#[trigger] init[i]).1)
                    > SILENCE_TIMEOUT_MS;
            assert(obs[i] == init[i]);
        }
        if watch_run(w, obs).done && !watch_run(w, init).done {
            assert(obs[obs.len() - 1] == obs.last());
        }
        if exists|i: int|
            0 <= i < obs.len() && elapsed_ms(w.last_loud_ms, (#[trigger] obs[i]).1)
                > SILENCE_TIMEOUT_MS {
            let i = choose|i: int|
                0 <= i < obs.len() && elapsed_ms(w.last_loud_ms, (#[trigger] obs[i]).1)
                    > SILENCE_TIMEOUT_MS;
            if i < obs.len() - 1 {
                assert(init[i] == obs[i]);
            }
        }
    }
}

/// The silence watchdog asks to stop at most once, whatever it observes;
/// and a stream of quiet peaks that outlasts the silence ceiling draws
/// exactly one request, after which the watchdog no longer observes.
pub proof fn silence_requests_exactly_one_stop(w: WatchView, obs: Seq<(u16, u64)>)
    ensures
        stop_requests(w, obs) <= 1,
        (!w.done && (forall|i: int| 0 <= i < obs.len() ==> (#[trigger] obs[i]).0
            < SILENCE_THRESHOLD) && (exists|i: int|
            0 <= i < obs.len() && elapsed_ms(w.last_loud_ms, (#[trigger] obs[i]).1)
                > SILENCE_TIMEOUT_MS)) ==> stop_requests(w, obs) == 1 && watch_run(w, obs).done,
{
    lemma_stops_bounded(w, obs);
    if !w.done && (forall|i: int| 0 <= i < obs.len() ==> (#[trigger] obs[i]).0 < SILENCE_THRESHOLD)
        && (exists|i: int|
        0 <= i < obs.len() && elapsed_ms(w.last_loud_ms, (#[trigger] obs[i]).1)
            > SILENCE_TIMEOUT_MS) {
        lemma_quiet_run(w, obs);
        lemma_quiet_stops(w, obs);
    }
}

proof fn lemma_quiet_stops(w: WatchView, obs: Seq<(u16, u64)>)
    requires
        !w.done,
        forall|i: int| 0 <= i < obs.len() ==> (#[trigger] obs[i]).0 < SILENCE_THRESHOLD,
    ensures
        watch_run(w, obs).done ==> stop_requests(w, obs) == 1,
    decreases obs.len(),
{
    if obs.len() > 0 {
        let init = obs.drop_last();
        assert forall|i: int| 0 <= i < init.len() implies (#[trigger] init[i]).0
            < SILENCE_THRESHOLD by {
            assert(init[i] == obs[i]);
        }
        lemma_quiet_stops(w, init);
        lemma_stops_bounded(w, init);
        assert(obs[obs.len() - 1] == obs.last());
    }
}

} // verus!
