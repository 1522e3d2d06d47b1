//! Stream lifecycle: debouncing the online/offline status seen by polling,
//! so that a change is believed only after it has been seen on several
//! consecutive polls.

use vstd::prelude::*;
use crate::clock::{elapsed, Duration, Instant};

verus! {

/// Settings of the lifecycle worker.
pub struct LifecycleCfg {
    pub channel: String,
    pub client_id: String,
    pub client_secret: String,
    pub poll: Duration,
    pub confirm_polls: u32,
    pub notify_online: bool,
    pub notify_offline: bool,
}

/// What a poll changed.
#[derive(Debug, Clone, Copy, PartialEq, Eq, Structural)]
pub enum Transition {
    /// Nothing (no change, or a change not yet confirmed).
    Unchanged,
    /// The stream is now believed online.
    WentOnline,
    /// The stream is now believed offline, after being online this long
    /// (whole seconds; 0 if the start is unknown).
    WentOffline { duration_secs: u128 },
}

/// The abstract state of the debouncer.
pub struct LifecycleView {
    pub online: bool,
    pub pending: nat,
    pub online_since: Option<int>,
    pub confirm_polls: nat,
}

/// The number of consecutive differing polls needed: `confirm_polls`, at
/// least one.
pub open spec fn needed(confirm_polls: nat) -> nat {
    if confirm_polls >= 1 {
        confirm_polls
    } else {
        1
    }
}

/// One poll seeing `live` at `now`: a poll that agrees with the believed
/// state clears the count of differing polls; a differing poll counts, and
/// once the count reaches `needed(confirm_polls)` the believed state flips
/// and the count restarts.
pub open spec fn poll_step(s: LifecycleView, live: bool, now: int) -> (LifecycleView, Transition) {
    if live == s.online {
        (LifecycleView { pending: 0, ..s }, Transition::Unchanged)
    } else if s.pending + 1 >= needed(s.confirm_polls) {
        if live {
            (
                LifecycleView { online: true, pending: 0, online_since: Some(now), ..s },
                Transition::WentOnline,
            )
        } else {
            let secs = match s.online_since {
                Some(t) => (elapsed(t, now) / 1_000_000_000) as u128,
                None => 0,
            };
            (
                LifecycleView { online: false, pending: 0, online_since: None, ..s },
                Transition::WentOffline { duration_secs: secs },
            )
        }
    } else {
        (LifecycleView { pending: s.pending + 1, ..s }, Transition::Unchanged)
    }
}

/// The online/offline debouncer of the lifecycle worker.
pub struct Lifecycle {
    online: bool,
    pending: u32,
    online_since: Option<Instant>,
    confirm_polls: u32,
}

impl View for Lifecycle {
    type V = LifecycleView;

    closed spec fn view(&self) -> LifecycleView {
        LifecycleView {
            online: self.online,
            pending: self.pending as nat,
            online_since: match self.online_since {
                Some(t) => Some(t@),
                None => None,
            },
            confirm_polls: self.confirm_polls as nat,
        }
    }
}

impl Lifecycle {
    /// The count of differing polls stays below the number needed.
    pub closed spec fn wf(&self) -> bool {
        (self.pending as nat) < needed(self.confirm_polls as nat)
    }

    /// Starts believing the stream offline.
    pub fn new(confirm_polls: u32) -> (l: Lifecycle)
        ensures
            l.wf(),
            l@ == (LifecycleView {
                online: false,
                pending: 0,
                online_since: None,
                confirm_polls: confirm_polls as nat,
            }),
    {
        Lifecycle { online: false, pending: 0, online_since: None, confirm_polls }
    }

    /// Whether the stream is believed online.
    pub fn is_online(&self) -> (b: bool)
        ensures
            b == self@.online,
    {
        self.online
    }

    /// A successful poll that saw the stream `live` at `now` (see
    /// `poll_step`).
    pub fn on_poll(&mut self, live: bool, now: Instant) -> (t: Transition)
        requires
            old(self).wf(),
        ensures
            final(self).wf(),
            (final(self)@, t) == poll_step(old(self)@, live, now@),
    {
        if live != self.online {
            self.pending = self.pending + 1;
            let need = if self.confirm_polls >= 1 {
                self.confirm_polls
            } else {
                1
            };
            if self.pending >= need {
                self.online = live;
                self.pending = 0;
                if live {
                    self.online_since = Some(now);
                    Transition::WentOnline
                } else {
                    let secs: u128 = match self.online_since {
                        Some(t) => now.duration_since(t).as_secs(),
                        None => 0,
                    };
                    self.online_since = None;
                    Transition::WentOffline { duration_secs: secs }
                }
            } else {
                Transition::Unchanged
            }
        } else {
            self.pending = 0;
            Transition::Unchanged
        }
    }
}

/// The state after a series of polls, one per entry of `polls` (whether the
/// stream was seen live, and when).
pub open spec fn run_polls(s: LifecycleView, polls: Seq<(bool, int)>) -> LifecycleView
    decreases polls.len(),
{
    if polls.len() == 0 {
        s
    } else {
        run_polls(poll_step(s, polls[0].0, polls[0].1).0, polls.drop_first())
    }
}

/// A status change is believed only when confirmed: from a settled state
/// (no differing polls counted), fewer than `needed(confirm_polls)`
/// consecutive polls that disagree with the believed state leave it as it
/// was.
pub proof fn lemma_unconfirmed_change_ignored(s: LifecycleView, polls: Seq<(bool, int)>)
    requires
        s.pending + polls.len() < needed(s.confirm_polls),
        forall|i: int| 0 <= i < polls.len() ==> (#[trigger] polls[i]).0 != s.online,
    ensures
        run_polls(s, polls).online == s.online,
        run_polls(s, polls).pending == s.pending + polls.len(),
        run_polls(s, polls).confirm_polls == s.confirm_polls,
    decreases polls.len(),
{
    if polls.len() > 0 {
        let s2 = poll_step(s, polls[0].0, polls[0].1).0;
        let rest = polls.drop_first();
        assert forall|i: int| 0 <= i < rest.len() implies (#[trigger] rest[i]).0 != s2.online by {
            assert(rest[i] == polls[i + 1]);
        }
        lemma_unconfirmed_change_ignored(s2, rest);
    }
}

/// A status change seen on `needed(confirm_polls)` consecutive polls from a
/// settled state is believed.
pub proof fn lemma_confirmed_change_believed(s: LifecycleView, polls: Seq<(bool, int)>)
    requires
        s.pending == 0,
        polls.len() == needed(s.confirm_polls),
        forall|i: int| 0 <= i < polls.len() ==> (#[trigger] polls[i]).0 != s.online,
    ensures
        run_polls(s, polls).online != s.online,
        run_polls(s, polls).pending == 0,
{
    let n = polls.len();
    let front = polls.take(n - 1);
    let last = polls[n - 1];
    assert forall|i: int| 0 <= i < front.len() implies (#[trigger] front[i]).0 != s.online by {
        assert(front[i] == polls[i]);
    }
    lemma_unconfirmed_change_ignored(s, front);
    lemma_run_polls_split(s, polls, n - 1);
    let mid = run_polls(s, front);
    let tail = polls.skip(n - 1);
    assert(tail.len() == 1);
    assert(tail[0] == last);
    assert(tail.drop_first() =~= Seq::<(bool, int)>::empty());
    assert(polls.take(n - 1) == front);
    assert(run_polls(mid, tail) == run_polls(poll_step(mid, last.0, last.1).0, tail.drop_first()));
    assert(last.0 != mid.online);
    assert(mid.pending + 1 >= needed(mid.confirm_polls));
}

/// Running a series of polls is running its first `k` polls, then the rest.
pub proof fn lemma_run_polls_split(s: LifecycleView, polls: Seq<(bool, int)>, k: int)
    requires
        0 <= k <= polls.len(),
    ensures
        run_polls(s, polls) == run_polls(run_polls(s, polls.take(k)), polls.skip(k)),
    decreases k,
{
    if k == 0 {
        assert(polls.take(0) =~= Seq::<(bool, int)>::empty());
        assert(polls.skip(0) =~= polls);
    } else {
        let s2 = poll_step(s, polls[0].0, polls[0].1).0;
        lemma_run_polls_split(s2, polls.drop_first(), k - 1);
        assert(polls.take(k).drop_first() =~= polls.drop_first().take(k - 1));
        assert(polls.drop_first().skip(k - 1) =~= polls.skip(k));
        assert(polls.take(k)[0] == polls[0]);
    }
}

} // verus!
