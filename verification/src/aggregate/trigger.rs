//! Summary trigger policy: fire on a time interval, a token-volume threshold,
//! or an explicit manual request (`!summary`).

use vstd::prelude::*;
use crate::clock::{elapsed, Duration, Instant};

verus! {

/// The abstract state of a trigger.
pub struct TriggerView {
    pub interval: int,
    pub token_threshold: nat,
    pub last_fire: int,
    pub manual: bool,
}

/// When a summary is due.
pub struct Trigger {
    interval: Duration,
    token_threshold: usize,
    last_fire: Instant,
    manual: bool,
}

impl View for Trigger {
    type V = TriggerView;

    closed spec fn view(&self) -> TriggerView {
        TriggerView {
            interval: self.interval@,
            token_threshold: self.token_threshold as nat,
            last_fire: self.last_fire@,
            manual: self.manual,
        }
    }
}

/// Whether a trigger in state `t` fires with `tokens` unsummarized tokens at
/// `now`: on a manual request; when the interval has elapsed since the last
/// fire and there is content; or when the volume threshold (if non-zero) is
/// reached.
pub open spec fn fires(t: TriggerView, tokens: nat, now: int) -> bool {
    ||| t.manual
    ||| (tokens > 0 && elapsed(t.last_fire, now) >= t.interval)
    ||| (t.token_threshold > 0 && tokens >= t.token_threshold)
}

impl Trigger {
    /// A trigger whose interval starts now (reads the clock).
    pub fn new(interval: Duration, token_threshold: usize) -> (t: Trigger)
        ensures
            t@.interval == interval@,
            t@.token_threshold == token_threshold,
            !t@.manual,
    {
        Trigger::new_at(interval, token_threshold, Instant::now())
    }

    /// A trigger whose interval starts at `now`.
    pub fn new_at(interval: Duration, token_threshold: usize, now: Instant) -> (t: Trigger)
        ensures
            t@ == (TriggerView {
                interval: interval@,
                token_threshold: token_threshold as nat,
                last_fire: now@,
                manual: false,
            }),
    {
        Trigger { interval, token_threshold, last_fire: now, manual: false }
    }

    /// Request an out-of-band summary on the next evaluation.
    pub fn request_manual(&mut self)
        ensures
            final(self)@ == (TriggerView { manual: true, ..old(self)@ }),
    {
        self.manual = true;
    }

    /// Whether a summary is due (see `fires`).
    pub fn should_fire(&self, unsummarized_tokens: usize, now: Instant) -> (b: bool)
        ensures
            b == fires(self@, unsummarized_tokens as nat, now@),
    {
        self.manual || (unsummarized_tokens > 0 && self.interval.le(&now.duration_since(self.last_fire)))
            || (self.token_threshold > 0 && unsummarized_tokens >= self.token_threshold)
    }

    /// Records a summary at `now`: the interval restarts and any manual
    /// request is consumed.
    pub fn record_fire(&mut self, now: Instant)
        ensures
            final(self)@ == (TriggerView { last_fire: now@, manual: false, ..old(self)@ }),
    {
        self.last_fire = now;
        self.manual = false;
    }
}

/// A manual request makes the trigger fire whatever the volume or time.
pub proof fn lemma_manual_fires(t: TriggerView, tokens: nat, now: int)
    requires
        t.manual,
    ensures
        fires(t, tokens, now),
{
}

/// With no content, a trigger without a manual request never fires.
pub proof fn lemma_empty_needs_manual(t: TriggerView, now: int)
    requires
        !t.manual,
    ensures
        !fires(t, 0, now),
{
}

/// Recording a fire clears a manual request: with nothing pending, the
/// trigger is then quiet.
pub proof fn lemma_record_clears_manual(t: TriggerView, at: int, now: int)
    ensures
        !fires(TriggerView { last_fire: at, manual: false, ..t }, 0, now),
{
}

} // verus!
