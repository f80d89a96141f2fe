use vstd::prelude::*;

use crate::config::Protocol;

verus! {

/// The pause before the counter report is stopped, in milliseconds.
pub const COUNTER_GRACE_MS: u64 = 1000;

/// The pause that lets event loops notice their cancellation, in
/// milliseconds.
pub const EVENT_LOOP_SETTLE_MS: u64 = 500;

/// The bound on the wait for all disconnects, in milliseconds.
pub const DISCONNECT_WAIT_MS: u64 = 5000;

/// One step of shutting a run down, in the order in which they are taken.
#[derive(Debug, Clone, Copy, PartialEq, Eq, Structural)]
pub enum StopStep {
    /// Abort the main orchestration task.
    AbortMain,
    /// Protocol teardown: for MQTT abort the event loops, let them settle,
    /// then disconnect every client with a bounded wait; for TCP shut the
    /// connections down.
    TearDown(Protocol),
    /// Abort the worker group loops.
    AbortDispatch,
    /// After the grace pause, abort the counter report.
    AbortCounter,
    /// Remove the clients of the protocol from the fleet.
    ClearFleet(Protocol),
}

/// What `stop` found and what it asks for.
#[derive(Debug, Clone, PartialEq, Eq)]
pub enum StopOutcome {
    /// No run was ever started; the fleet of the protocol named, if any, is
    /// to be cleared.
    NothingRunning { clear: Option<Protocol> },
    /// The run is stopped already: nothing to do.
    AlreadyStopped,
    /// The run is stopping: these steps, in this order.
    Stopping { steps: Vec<StopStep> },
}

/// The run control: whether a run was ever started, whether it is running,
/// how many messages it has sent, and which background tasks it holds.
#[derive(Debug, Clone, Copy)]
pub struct Task {
    pub started: bool,
    pub running: bool,
    pub counter: u64,
    pub has_main: bool,
    pub has_dispatch: bool,
    pub has_counter: bool,
}

/// The control after `start`: running, counter at zero, the main task and
/// the counter report spawned, no worker groups yet.
pub open spec fn started(t: Task) -> Task {
    Task { started: true, running: true, counter: 0, has_main: true, has_dispatch: false, has_counter: true }
}

/// The control after one more message has been sent.
pub open spec fn sent(t: Task) -> Task {
    Task { counter: if t.counter < u64::MAX { (t.counter + 1) as u64 } else { t.counter }, ..t }
}

/// The control after `n` more messages have been sent.
pub open spec fn sent_n(t: Task, n: nat) -> Task
    decreases n,
{
    if n == 0 {
        t
    } else {
        sent(sent_n(t, (n - 1) as nat))
    }
}

/// The protocol that a stop tears down: MQTT unless TCP is named.
pub open spec fn teardown_protocol(p: Option<Protocol>) -> Protocol {
    match p {
        Some(Protocol::Tcp) => Protocol::Tcp,
        _ => Protocol::Mqtt,
    }
}

/// The steps that stop a running control: abort the main task if it is
/// there, tear the protocol down, abort the worker groups and the counter
/// report if they are there, and clear the fleet.
pub open spec fn stop_steps(t: Task, p: Option<Protocol>) -> Seq<StopStep> {
    let q = teardown_protocol(p);
    (if t.has_main { seq![StopStep::AbortMain] } else { Seq::empty() })
        + seq![StopStep::TearDown(q)]
        + (if t.has_dispatch { seq![StopStep::AbortDispatch] } else { Seq::empty() })
        + (if t.has_counter { seq![StopStep::AbortCounter] } else { Seq::empty() })
        + seq![StopStep::ClearFleet(q)]
}

/// The control after `stop`: not running, its tasks taken; the counter keeps
/// its value.
pub open spec fn stopped(t: Task) -> Task {
    if t.started && t.running {
        Task { running: false, has_main: false, has_dispatch: false, has_counter: false, ..t }
    } else {
        t
    }
}

impl Task {
    /// A control that has never run.
    pub fn new() -> (r: Self)
        ensures
            !r.started,
            !r.running,
            r.counter == 0,
            !r.has_main && !r.has_dispatch && !r.has_counter,
    {
        Task { started: false, running: false, counter: 0, has_main: false, has_dispatch: false, has_counter: false }
    }

    /// Starts a run: the counter goes back to zero before anything is sent.
    pub fn start(&mut self)
        ensures
            *final(self) == started(*old(self)),
    {
        self.started = true;
        self.running = true;
        self.counter = 0;
        self.has_main = true;
        self.has_dispatch = false;
        self.has_counter = true;
    }

    /// Notes that the worker groups of the run have been spawned.
    pub fn dispatch_spawned(&mut self)
        ensures
            *final(self) == (Task { has_dispatch: true, ..*old(self) }),
    {
        self.has_dispatch = true;
    }

    /// Counts one message sent.
    pub fn record_sent(&mut self)
        ensures
            *final(self) == sent(*old(self)),
    {
        if self.counter < u64::MAX {
            self.counter = self.counter + 1;
        }
    }

    /// The number of messages sent since the run started.
    pub fn counter(&self) -> (r: u64)
        ensures
            r == self.counter,
    {
        self.counter
    }

    /// Whether the run is running.
    pub fn status(&self) -> (r: bool)
        ensures
            r == self.running,
    {
        self.running
    }

    /// Stops the run. The running flag is cleared first, so that worker
    /// groups send nothing at their next tick; the steps then say what is to
    /// be torn down, in order. Stopping a stopped run does nothing.
    pub fn stop(&mut self, protocol: Option<Protocol>) -> (r: StopOutcome)
        ensures
            *final(self) == stopped(*old(self)),
            !old(self).started ==> r == (StopOutcome::NothingRunning { clear: protocol }),
            old(self).started && !old(self).running ==> r == StopOutcome::AlreadyStopped,
            old(self).started && old(self).running ==> (r matches StopOutcome::Stopping { steps }
                && steps@ == stop_steps(*old(self), protocol)),
    {
        if !self.started {
            return StopOutcome::NothingRunning { clear: protocol };
        }
        if !self.running {
            return StopOutcome::AlreadyStopped;
        }
        self.running = false;
        let q = match protocol {
            Some(Protocol::Tcp) => Protocol::Tcp,
            _ => Protocol::Mqtt,
        };
        let mut steps: Vec<StopStep> = Vec::new();
        if self.has_main {
            steps.push(StopStep::AbortMain);
            self.has_main = false;
        }
        steps.push(StopStep::TearDown(q));
        if self.has_dispatch {
            steps.push(StopStep::AbortDispatch);
            self.has_dispatch = false;
        }
        if self.has_counter {
            steps.push(StopStep::AbortCounter);
            self.has_counter = false;
        }
        steps.push(StopStep::ClearFleet(q));
        proof {
            assert(steps@ =~= stop_steps(*old(self), protocol));
        }
        StopOutcome::Stopping { steps }
    }
}

/// After a start and any `n` messages sent, the counter is exactly `n`
/// (while `n` fits the counter): a restart sets it back to zero before the
/// first message of the new run.
pub proof fn lemma_counter_counts_sends(t: Task, n: nat)
    requires
        n <= u64::MAX,
    ensures
        started(t).counter == 0,
        sent_n(started(t), n).counter == n,
        sent_n(started(t), n).running,
    decreases n,
{
    if n > 0 {
        lemma_counter_counts_sends(t, (n - 1) as nat);
    }
}

/// A stop of a running control clears the fleet exactly once, as its last
/// step, and a second stop right after it finds nothing to do.
pub proof fn lemma_stop_is_idempotent(t: Task, p: Option<Protocol>, q: Option<Protocol>)
    requires
        t.started,
        t.running,
    ensures
        stop_steps(t, p).last() == StopStep::ClearFleet(teardown_protocol(p)),
        forall|i: int| 0 <= i < stop_steps(t, p).len() - 1 ==> !(#[trigger] stop_steps(t, p)[i] is ClearFleet),
        stopped(t).started && !stopped(t).running,
        stopped(stopped(t)) == stopped(t),
{
    let s = stop_steps(t, p);
    assert forall|i: int| 0 <= i < s.len() - 1 implies !(#[trigger] s[i] is ClearFleet) by {
        let a = if t.has_main { seq![StopStep::AbortMain] } else { Seq::<StopStep>::empty() };
        let b = if t.has_dispatch { seq![StopStep::AbortDispatch] } else { Seq::<StopStep>::empty() };
        let c = if t.has_counter { seq![StopStep::AbortCounter] } else { Seq::<StopStep>::empty() };
        let x = a + seq![StopStep::TearDown(teardown_protocol(p))] + b + c;
        assert(s == x + seq![StopStep::ClearFleet(teardown_protocol(p))]);
        assert(s[i] == x[i]);
        if i < a.len() {
            assert(x[i] == a[i]);
        } else if i == a.len() {
        } else if i < a.len() + 1 + b.len() {
            assert(x[i] == b[i - a.len() - 1]);
        } else {
            assert(x[i] == c[i - a.len() - 1 - b.len()]);
        }
    }
}

} // verus!
