//! The change watcher's debounce state machine.
//!
//! The watcher consumes a possibly-noisy, at-least-once stream of
//! file-change notifications and a periodic tick. A modification event
//! opens (or re-opens) a pending window; once the debounce threshold
//! has elapsed with no further event, the pipeline re-runs, and the
//! new snapshot is published only when its fingerprint differs from
//! the last published one. The decisions live here, fully verified;
//! the surrounding loop performs the file reads and the waiting.

use vstd::prelude::*;

verus! {

/// The quiet period after the last detected edit before the pipeline
/// re-runs, in milliseconds.
pub const DEBOUNCE_MS: u64 = 100;

/// The watcher's private state: the fingerprint of the last published
/// snapshot, and when the current pending window opened, if one is
/// open.
pub struct WatchState {
    /// The fingerprint the store currently serves.
    pub last_fingerprint: u64,
    /// When the latest modification event arrived, if a change is pending.
    pub pending_since: Option<u64>,
}

/// The state after a modification event at `now_ms`: the pending
/// window opens anew, overwriting any earlier pending timestamp.
pub open spec fn note_spec(s: WatchState, now_ms: u64) -> WatchState {
    WatchState { last_fingerprint: s.last_fingerprint, pending_since: Some(now_ms) }
}

/// Whether a reload is due at `now_ms`: a change is pending and the
/// debounce threshold has elapsed since it.
pub open spec fn due_spec(s: WatchState, now_ms: u64) -> bool {
    match s.pending_since {
        Some(t) => t <= now_ms && now_ms - t >= DEBOUNCE_MS,
        None => false,
    }
}

/// Whether a reloading pass that produced `outcome` (the new
/// fingerprint, or nothing on a read or compile failure) publishes:
/// only a successful run whose fingerprint differs from the last
/// published one.
pub open spec fn publish_decision(s: WatchState, outcome: Option<u64>) -> bool {
    match outcome {
        Some(fp) => fp != s.last_fingerprint,
        None => false,
    }
}

/// The state after a reloading pass completes: idle again, the
/// fingerprint advanced exactly when the pass published.
pub open spec fn complete_spec(s: WatchState, outcome: Option<u64>) -> WatchState {
    WatchState {
        last_fingerprint: if publish_decision(s, outcome) {
            outcome.unwrap()
        } else {
            s.last_fingerprint
        },
        pending_since: None,
    }
}

impl WatchState {
    /// Starts idle, remembering the fingerprint published at startup.
    pub fn new(initial_fingerprint: u64) -> (s: WatchState)
        ensures
            s.last_fingerprint == initial_fingerprint,
            s.pending_since is None,
    {
        WatchState { last_fingerprint: initial_fingerprint, pending_since: None }
    }

    /// Notes a matching modification event at `now_ms`, resetting the
    /// debounce window.
    pub fn note_modification(&mut self, now_ms: u64)
        ensures
            *final(self) == note_spec(*old(self), now_ms),
    {
        self.pending_since = Some(now_ms);
    }

    /// On a tick at `now_ms`: whether the debounce threshold has
    /// elapsed, so that a reloading pass should run now.
    pub fn reload_due(&self, now_ms: u64) -> (r: bool)
        ensures
            r == due_spec(*self, now_ms),
    {
        match self.pending_since {
            Some(t) => t <= now_ms && now_ms - t >= DEBOUNCE_MS,
            None => false,
        }
    }

    /// Closes a reloading pass whose outcome was `outcome`: the watcher
    /// returns to idle, and the result says whether the new snapshot
    /// is to be published (and the reload signal broadcast). A pass
    /// over byte-identical content, or a failed pass, publishes
    /// nothing and keeps the last good fingerprint.
    pub fn complete_reload(&mut self, outcome: Option<u64>) -> (publish: bool)
        ensures
            *final(self) == complete_spec(*old(self), outcome),
            publish == publish_decision(*old(self), outcome),
    {
        self.pending_since = None;
        match outcome {
            Some(fp) => {
                if fp != self.last_fingerprint {
                    self.last_fingerprint = fp;
                    true
                } else {
                    false
                }
            },
            None => false,
        }
    }
}

/// The state after a burst of modification events, in order.
pub open spec fn after_events(s: WatchState, ts: Seq<u64>) -> WatchState
    decreases ts.len(),
{
    if ts.len() == 0 {
        s
    } else {
        after_events(note_spec(s, ts[0]), ts.drop_first())
    }
}

/// Debounce coalescing: any number of rapid modification events leave
/// the watcher exactly as if only the last one had arrived, so one
/// quiet window later at most one reloading pass runs for the burst.
pub proof fn lemma_debounce_coalescing(s: WatchState, ts: Seq<u64>)
    requires
        ts.len() > 0,
    ensures
        after_events(s, ts) == note_spec(s, ts.last()),
    decreases ts.len(),
{
    if ts.len() == 1 {
        assert(ts[0] == ts.last());
    } else {
        lemma_debounce_coalescing(note_spec(s, ts[0]), ts.drop_first());
        assert(ts.drop_first().last() == ts.last());
    }
}

/// No reloading pass runs before the debounce threshold elapses: after
/// an event at `t`, nothing is due at any tick earlier than
/// `t + DEBOUNCE_MS`.
pub proof fn lemma_quiet_before_threshold(s: WatchState, t: u64, now_ms: u64)
    requires
        now_ms < t + DEBOUNCE_MS,
    ensures
        !due_spec(note_spec(s, t), now_ms),
{
}

/// After a reloading pass completes, the watcher is idle: nothing
/// further is due until a new modification event arrives, so exactly
/// one pass runs per debounce cycle.
pub proof fn lemma_idle_after_reload(s: WatchState, outcome: Option<u64>, now_ms: u64)
    ensures
        !due_spec(complete_spec(s, outcome), now_ms),
{
}

/// Change suppression: a pass whose re-run hashed to the currently
/// published fingerprint publishes nothing and keeps that fingerprint.
pub proof fn lemma_change_suppression(s: WatchState)
    ensures
        !publish_decision(s, Some(s.last_fingerprint)),
        complete_spec(s, Some(s.last_fingerprint)).last_fingerprint == s.last_fingerprint,
{
}

} // verus!
