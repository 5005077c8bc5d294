//! A run from start to end: what is started, in which order, and when the
//! run moves from one phase to the next.
//!
//! The tasks themselves, the clock and the signals are the caller's. The
//! caller reports what has happened; the answer is what to do about it.

use vstd::prelude::*;

verus! {

/// What a run is made of, as far as its course depends on it.
#[derive(Debug, Clone, Copy, PartialEq, Eq, Structural)]
pub struct Workers {
    /// How many generators are configured.
    pub generators: usize,
    /// Whether an inspector is configured.
    pub inspector: bool,
    /// How many blackholes are configured.
    pub blackholes: usize,
    /// How many scrapers of target metrics are configured.
    pub target_metrics: usize,
    /// Whether there is a target.
    pub target: bool,
}

/// One thing to start.
#[derive(Debug, Clone, Copy, PartialEq, Eq, Structural)]
pub enum Worker {
    /// The generator with this place in the configuration.
    Generator(usize),
    /// The inspector.
    Inspector,
    /// The blackhole with this place in the configuration.
    Blackhole(usize),
    /// The scraper of target metrics with this place in the configuration.
    TargetMetrics(usize),
    /// The observer of the target.
    Observer,
    /// The target itself.
    Target,
    /// No target: tell those who wait for one that none will come.
    AnnounceNoTarget,
}

/// The workers `from(0)`, `from(1)`, up to `count` of them.
pub open spec fn numbered(count: nat, from: spec_fn(usize) -> Worker) -> Seq<Worker> {
    Seq::new(count, |i: int| from(i as usize))
}

/// The order in which a run starts its workers: the generators, the
/// inspector if there is one and it is not switched off, the blackholes,
/// the scrapers of target metrics, and last the observer and the target,
/// or, without a target, the word that there is none.
pub open spec fn start_order(workers: Workers, disable_inspector: bool) -> Seq<Worker> {
    numbered(workers.generators as nat, |i: usize| Worker::Generator(i)) + (if workers.inspector
        && !disable_inspector {
        seq![Worker::Inspector]
    } else {
        Seq::empty()
    }) + numbered(workers.blackholes as nat, |i: usize| Worker::Blackhole(i)) + numbered(
        workers.target_metrics as nat,
        |i: usize| Worker::TargetMetrics(i),
    ) + (if workers.target {
        seq![Worker::Observer, Worker::Target]
    } else {
        seq![Worker::AnnounceNoTarget]
    })
}

/// The order in which a run starts its workers.
pub fn plan(workers: Workers, disable_inspector: bool) -> (order: Vec<Worker>)
    ensures
        order@ == start_order(workers, disable_inspector),
{
    let mut order: Vec<Worker> = Vec::new();
    let mut i: usize = 0;
    while i < workers.generators
        invariant
            i <= workers.generators,
            order@ == numbered(i as nat, |i: usize| Worker::Generator(i)),
        decreases workers.generators - i,
    {
        order.push(Worker::Generator(i));
        i += 1;
        assert(order@ =~= numbered(i as nat, |i: usize| Worker::Generator(i)));
    }
    let ghost generators = order@;
    if workers.inspector && !disable_inspector {
        order.push(Worker::Inspector);
    }
    let ghost with_inspector = order@;
    i = 0;
    while i < workers.blackholes
        invariant
            i <= workers.blackholes,
            order@ == with_inspector + numbered(i as nat, |i: usize| Worker::Blackhole(i)),
        decreases workers.blackholes - i,
    {
        order.push(Worker::Blackhole(i));
        i += 1;
        assert(order@ =~= with_inspector + numbered(i as nat, |i: usize| Worker::Blackhole(i)));
    }
    let ghost with_blackholes = order@;
    i = 0;
    while i < workers.target_metrics
        invariant
            i <= workers.target_metrics,
            order@ == with_blackholes + numbered(i as nat, |i: usize| Worker::TargetMetrics(i)),
        decreases workers.target_metrics - i,
    {
        order.push(Worker::TargetMetrics(i));
        i += 1;
        assert(order@ =~= with_blackholes + numbered(
            i as nat,
            |i: usize| Worker::TargetMetrics(i),
        ));
    }
    if workers.target {
        order.push(Worker::Observer);
        order.push(Worker::Target);
    } else {
        order.push(Worker::AnnounceNoTarget);
    }
    assert(order@ =~= start_order(workers, disable_inspector));
    order
}

/// How long the phases of a run last.
#[derive(Debug, Clone, Copy, PartialEq, Eq, Structural)]
pub struct Timing {
    /// The warm-up, in seconds.
    pub warmup_seconds: u32,
    /// The time in which samples are taken, in seconds.
    pub experiment_seconds: u32,
    /// How long the run waits for its workers to go, in milliseconds: half
    /// the time allowed for the shutdown. The other half is for the task
    /// runtime.
    pub grace_milliseconds: u32,
}

impl Timing {
    /// The timing of a run, from the seconds given on the command line.
    pub fn new(
        warmup_duration_seconds: u32,
        experiment_duration_seconds: u32,
        max_shutdown_delay: u16,
    ) -> (r: Self)
        ensures
            r.warmup_seconds == warmup_duration_seconds,
            r.experiment_seconds == experiment_duration_seconds,
            r.grace_milliseconds == max_shutdown_delay * 500,
    {
        Timing {
            warmup_seconds: warmup_duration_seconds,
            experiment_seconds: experiment_duration_seconds,
            grace_milliseconds: max_shutdown_delay as u32 * 500,
        }
    }
}

/// Where a run stands.
#[derive(Debug, Clone, Copy, PartialEq, Eq, Structural)]
pub enum State {
    /// Nothing has been done.
    Init,
    /// Telemetry has a place to go.
    TelemetryInstalled,
    /// The workers are started.
    WorkersSpawned,
    /// The target runs; no samples are taken yet.
    Warmup,
    /// Samples are taken.
    Sampling,
    /// The shutdown is signalled; the workers are given time to go.
    Draining,
    /// The run is over.
    Terminated,
}

/// How the target came to its end.
#[derive(Debug, Clone, Copy, PartialEq, Eq, Structural)]
pub enum TargetExit {
    /// As it should, or its task was lost.
    Expected,
    /// With an error nobody asked for.
    Failed,
}

/// What has just happened.
#[derive(Debug, Clone, Copy, PartialEq, Eq, Structural)]
pub enum Event {
    /// Telemetry is installed.
    TelemetryInstalled,
    /// All workers are started.
    WorkersSpawned,
    /// The race between the clock, the target and the user starts.
    Started,
    /// The sleep that was asked for is over.
    Elapsed,
    /// The user interrupted the run.
    CtrlC,
    /// The target ended.
    TargetExited(TargetExit),
    /// The workers are gone, or their time is up.
    Drained,
}

/// What is to be done next.
#[derive(Debug, Clone, Copy, PartialEq, Eq, Structural)]
pub enum Action {
    /// Nothing: go on waiting.
    Wait,
    /// Start the workers, in the order of the plan.
    SpawnWorkers,
    /// Start the race.
    Start,
    /// Sleep for this many seconds.
    Sleep(u32),
    /// Signal the shutdown and give the workers this many milliseconds to
    /// go.
    Drain(u32),
    /// Leave with this exit code, giving the task runtime this many
    /// milliseconds to shut down.
    Exit {
        /// The exit code.
        code: u8,
        /// The milliseconds the runtime gets.
        grace_milliseconds: u32,
    },
}

/// A run.
#[derive(Debug, Clone, Copy, PartialEq, Eq, Structural)]
pub struct Run {
    /// Where it stands.
    pub state: State,
    /// How long its phases last.
    pub timing: Timing,
    /// Whether the target has failed.
    pub target_failed: bool,
}

impl State {
    /// How far along the run is: the states in their order.
    pub open spec fn rank(self) -> int {
        match self {
            State::Init => 0,
            State::TelemetryInstalled => 1,
            State::WorkersSpawned => 2,
            State::Warmup => 3,
            State::Sampling => 4,
            State::Draining => 5,
            State::Terminated => 6,
        }
    }

    /// Whether the run can be cut short from this state: it can once the
    /// workers are started and until the shutdown is signalled.
    pub open spec fn interruptible(self) -> bool {
        self == State::WorkersSpawned || self == State::Warmup || self == State::Sampling
    }
}

impl Run {
    /// The exit code of the run: zero, unless the target failed.
    pub open spec fn exit_code(self) -> u8 {
        if self.target_failed {
            1
        } else {
            0
        }
    }

    /// The run after `event`, and what is to be done next.
    ///
    /// The run goes through its states in order, each step on the event
    /// that ends the state: telemetry installed, workers spawned, started,
    /// warm-up elapsed, experiment elapsed, drained. An interrupt or the
    /// end of the target cuts an interruptible state short and leads to
    /// draining at once; if the target failed, that is kept for the exit
    /// code. An event that the state does not wait for changes nothing.
    pub open spec fn step(self, event: Event) -> (Run, Action) {
        let drain = (
            Run { state: State::Draining, ..self },
            Action::Drain(self.timing.grace_milliseconds),
        );
        match (self.state, event) {
            (State::Init, Event::TelemetryInstalled) => (
                Run { state: State::TelemetryInstalled, ..self },
                Action::SpawnWorkers,
            ),
            (State::TelemetryInstalled, Event::WorkersSpawned) => (
                Run { state: State::WorkersSpawned, ..self },
                Action::Start,
            ),
            (State::WorkersSpawned, Event::Started) => (
                Run { state: State::Warmup, ..self },
                Action::Sleep(self.timing.warmup_seconds),
            ),
            (State::Warmup, Event::Elapsed) => (
                Run { state: State::Sampling, ..self },
                Action::Sleep(self.timing.experiment_seconds),
            ),
            (State::Sampling, Event::Elapsed) => drain,
            (State::Draining, Event::Drained) => (
                Run { state: State::Terminated, ..self },
                Action::Exit {
                    code: self.exit_code(),
                    grace_milliseconds: self.timing.grace_milliseconds,
                },
            ),
            (_, Event::CtrlC) => if self.state.interruptible() {
                drain
            } else {
                (self, Action::Wait)
            },
            (_, Event::TargetExited(exit)) => if self.state.interruptible() {
                (
                    Run {
                        state: State::Draining,
                        target_failed: exit == TargetExit::Failed,
                        ..self
                    },
                    Action::Drain(self.timing.grace_milliseconds),
                )
            } else {
                (self, Action::Wait)
            },
            _ => (self, Action::Wait),
        }
    }

    /// A run at its start.
    pub fn new(timing: Timing) -> (r: Self)
        ensures
            r == (Run { state: State::Init, timing, target_failed: false }),
    {
        Run { state: State::Init, timing, target_failed: false }
    }

    /// Takes in what has just happened and answers with what is to be done
    /// next: see [`Run::step`].
    pub fn advance(&mut self, event: Event) -> (action: Action)
        ensures
            (*final(self), action) == old(self).step(event),
    {
        let grace: u32 = self.timing.grace_milliseconds;
        let interruptible: bool = match self.state {
            State::WorkersSpawned => true,
            State::Warmup => true,
            State::Sampling => true,
            _ => false,
        };
        match event {
            Event::CtrlC => {
                if interruptible {
                    self.state = State::Draining;
                    Action::Drain(grace)
                } else {
                    Action::Wait
                }
            },
            Event::TargetExited(exit) => {
                if interruptible {
                    self.state = State::Draining;
                    self.target_failed = match exit {
                        TargetExit::Failed => true,
                        TargetExit::Expected => false,
                    };
                    Action::Drain(grace)
                } else {
                    Action::Wait
                }
            },
            Event::TelemetryInstalled => match self.state {
                State::Init => {
                    self.state = State::TelemetryInstalled;
                    Action::SpawnWorkers
                },
                _ => Action::Wait,
            },
            Event::WorkersSpawned => match self.state {
                State::TelemetryInstalled => {
                    self.state = State::WorkersSpawned;
                    Action::Start
                },
                _ => Action::Wait,
            },
            Event::Started => match self.state {
                State::WorkersSpawned => {
                    self.state = State::Warmup;
                    Action::Sleep(self.timing.warmup_seconds)
                },
                _ => Action::Wait,
            },
            Event::Elapsed => match self.state {
                State::Warmup => {
                    self.state = State::Sampling;
                    Action::Sleep(self.timing.experiment_seconds)
                },
                State::Sampling => {
                    self.state = State::Draining;
                    Action::Drain(grace)
                },
                _ => Action::Wait,
            },
            Event::Drained => match self.state {
                State::Draining => {
                    let code: u8 = if self.target_failed {
                        1
                    } else {
                        0
                    };
                    self.state = State::Terminated;
                    Action::Exit { code, grace_milliseconds: grace }
                },
                _ => Action::Wait,
            },
        }
    }
}

/// A run never goes back, and an event that moves it moves it one state on
/// or, cutting it short, to draining.
pub proof fn lemma_run_moves_forward(run: Run, event: Event)
    ensures
        ({
            let after = run.step(event).0;
            &&& run.state.rank() <= after.state.rank()
            &&& after.state != run.state ==> after.state.rank() == run.state.rank() + 1
                || after.state == State::Draining
            &&& after.timing == run.timing
        }),
{
}

/// Once the workers are started, every way out leads through draining: an
/// interrupt, the end of the target and the end of the experiment all
/// signal the shutdown, and only the end of the draining ends the run.
pub proof fn lemma_shutdown_comes_first(run: Run, event: Event)
    ensures
        ({
            let (after, action) = run.step(event);
            &&& run.state.interruptible() && (event == Event::CtrlC || event is TargetExited)
                ==> after.state == State::Draining && action == Action::Drain(
                run.timing.grace_milliseconds,
            )
            &&& after.state == State::Terminated && run.state != State::Terminated ==> run.state
                == State::Draining && event == Event::Drained
            &&& action is Exit ==> after.state == State::Terminated && run.state
                == State::Draining
        }),
{
}

/// The run is over for good once it is over, and its exit code is one
/// exactly if the target failed.
pub proof fn lemma_terminated_is_final(run: Run, event: Event)
    requires
        run.state == State::Terminated,
    ensures
        run.step(event) == (run, Action::Wait),
{
}

/// The exit code is zero unless the end of the target cut the run short
/// with a failure.
pub proof fn lemma_exit_code(run: Run)
    requires
        run.state == State::Draining,
    ensures
        run.step(Event::Drained).1 == (Action::Exit {
            code: if run.target_failed {
                1u8
            } else {
                0u8
            },
            grace_milliseconds: run.timing.grace_milliseconds,
        }),
{
}

} // verus!
