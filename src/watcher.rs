//! Debouncing of file-change notifications: a burst of changes becomes one
//! rebuild, fired once the tree has been quiet for the debounce window.
use vstd::prelude::*;

verus! {

/// Quiet period, in milliseconds, required after the last change before a rebuild.
pub const DEBOUNCE_MS: u64 = 500;

/// Interval, in milliseconds, between two polls of an empty notification channel.
pub const POLL_INTERVAL_MS: u64 = 100;

/// What the watch loop observed; times are milliseconds on a monotonic clock.
#[derive(Debug, Clone, Copy, PartialEq, Eq, Structural)]
pub enum WatchInput {
    /// A change notification arrived at this time.
    Changed(u64),
    /// The notifier reported an error.
    Failed,
    /// The channel was empty at this time.
    Quiet(u64),
    /// The notifier is gone.
    Closed,
}

/// What the watch loop does next.
#[derive(Debug, Clone, Copy, PartialEq, Eq, Structural)]
pub enum WatchAction {
    /// Poll the channel again at once.
    Poll,
    /// Log the notifier's error, then poll again at once.
    Report,
    /// Run the rebuild callback, then wait one poll interval.
    Rebuild,
    /// Wait one poll interval, then poll again.
    Wait,
    /// End the loop.
    Stop,
}

/// The debounce timer: the time of the latest change not yet acted upon.
#[derive(Debug, Clone, Copy)]
pub struct Debouncer {
    pub last_event: Option<u64>,
}

/// At least the debounce window has passed from `last` to `now`.
pub open spec fn quiet_elapsed(last: u64, now: u64) -> bool {
    now >= last + DEBOUNCE_MS
}

pub open spec fn step_fires(last: Option<u64>, input: WatchInput) -> bool {
    match input {
        WatchInput::Quiet(now) => match last {
            Some(t) => quiet_elapsed(t, now),
            None => false,
        },
        _ => false,
    }
}

pub open spec fn step_state(last: Option<u64>, input: WatchInput) -> Option<u64> {
    match input {
        WatchInput::Changed(now) => Some(now),
        _ => if step_fires(last, input) {
            None
        } else {
            last
        },
    }
}

pub open spec fn step_action(last: Option<u64>, input: WatchInput) -> WatchAction {
    match input {
        WatchInput::Changed(_) => WatchAction::Poll,
        WatchInput::Failed => WatchAction::Report,
        WatchInput::Quiet(_) => if step_fires(last, input) {
            WatchAction::Rebuild
        } else {
            WatchAction::Wait
        },
        WatchInput::Closed => WatchAction::Stop,
    }
}

impl Debouncer {
    pub fn new() -> (r: Debouncer)
        ensures
            r.last_event is None,
    {
        Debouncer { last_event: None }
    }

    /// Records a change at `now`; any earlier pending change is superseded.
    pub fn record(&mut self, now: u64)
        ensures
            final(self).last_event == Some(now),
    {
        self.last_event = Some(now);
    }

    /// On a quiet poll at `now`: whether to rebuild, which clears the timer.
    pub fn poll(&mut self, now: u64) -> (fire: bool)
        ensures
            fire == step_fires(old(self).last_event, WatchInput::Quiet(now)),
            fire ==> old(self).last_event is Some && now >= old(self).last_event->0 + DEBOUNCE_MS,
            final(self).last_event == step_state(old(self).last_event, WatchInput::Quiet(now)),
    {
        match self.last_event {
            Some(t) => {
                if now >= t && now - t >= DEBOUNCE_MS {
                    self.last_event = None;
                    true
                } else {
                    false
                }
            },
            None => false,
        }
    }

    /// Decides the loop's next action from what it observed.
    pub fn handle(&mut self, input: WatchInput) -> (a: WatchAction)
        ensures
            a == step_action(old(self).last_event, input),
            final(self).last_event == step_state(old(self).last_event, input),
    {
        match input {
            WatchInput::Changed(now) => {
                self.record(now);
                WatchAction::Poll
            },
            WatchInput::Failed => WatchAction::Report,
            WatchInput::Quiet(now) => {
                if self.poll(now) {
                    WatchAction::Rebuild
                } else {
                    WatchAction::Wait
                }
            },
            WatchInput::Closed => WatchAction::Stop,
        }
    }
}

/// The timer after a sequence of inputs.
pub open spec fn run_state(last: Option<u64>, inputs: Seq<WatchInput>) -> Option<u64>
    decreases inputs.len(),
{
    if inputs.len() == 0 {
        last
    } else {
        step_state(run_state(last, inputs.drop_last()), inputs.last())
    }
}

/// How many rebuilds a sequence of inputs fires.
pub open spec fn run_fires(last: Option<u64>, inputs: Seq<WatchInput>) -> nat
    decreases inputs.len(),
{
    if inputs.len() == 0 {
        0
    } else {
        run_fires(last, inputs.drop_last()) + if step_fires(
            run_state(last, inputs.drop_last()),
            inputs.last(),
        ) {
            1nat
        } else {
            0nat
        }
    }
}

/// The time of the latest change among the inputs.
pub open spec fn latest_change(inputs: Seq<WatchInput>) -> Option<u64>
    decreases inputs.len(),
{
    if inputs.len() == 0 {
        None
    } else {
        match inputs.last() {
            WatchInput::Changed(t) => Some(t),
            _ => latest_change(inputs.drop_last()),
        }
    }
}

/// A burst: it starts with a change, and every poll in it comes less than the
/// debounce window after the latest change before it.
pub open spec fn is_burst(inputs: Seq<WatchInput>) -> bool {
    &&& inputs.len() > 0
    &&& inputs[0] is Changed
    &&& forall|i: int|
        0 <= i < inputs.len() && #[trigger] inputs[i] is Quiet ==> !quiet_elapsed(
            latest_change(inputs.take(i))->0,
            inputs[i]->Quiet_0,
        )
}

proof fn lemma_burst_prefix(inputs: Seq<WatchInput>, n: int)
    requires
        is_burst(inputs),
        1 <= n <= inputs.len(),
    ensures
        latest_change(inputs.take(n)) is Some,
        run_state(None, inputs.take(n)) == latest_change(inputs.take(n)),
        run_fires(None, inputs.take(n)) == 0,
    decreases n,
{
    let p = inputs.take(n);
    if n == 1 {
        assert(p.drop_last() =~= Seq::<WatchInput>::empty());
        assert(p.last() == inputs[0]);
        assert(run_fires(None, p.drop_last()) == 0);
    } else {
        lemma_burst_prefix(inputs, n - 1);
        assert(p.drop_last() =~= inputs.take(n - 1));
        assert(p.last() == inputs[n - 1]);
        if inputs[n - 1] is Quiet {
            assert(!quiet_elapsed(latest_change(inputs.take(n - 1))->0, inputs[n - 1]->Quiet_0));
        }
        assert(!step_fires(run_state(None, p.drop_last()), p.last()));
    }
}

/// A burst of changes fires no rebuild while it lasts; the first poll at least
/// the debounce window after its latest change fires exactly one, and leaves no
/// change pending, so later polls fire nothing more.
pub proof fn lemma_burst_fires_once(inputs: Seq<WatchInput>, now: u64)
    requires
        is_burst(inputs),
        quiet_elapsed(latest_change(inputs)->0, now),
    ensures
        run_fires(None, inputs) == 0,
        run_fires(None, inputs.push(WatchInput::Quiet(now))) == 1,
        run_state(None, inputs.push(WatchInput::Quiet(now))) is None,
{
    lemma_burst_prefix(inputs, inputs.len() as int);
    assert(inputs.take(inputs.len() as int) =~= inputs);
    let all = inputs.push(WatchInput::Quiet(now));
    assert(all.drop_last() =~= inputs);
}

} // verus!
