//! The supervisor as a state machine over plain values: what it asks for in
//! each state, what each outcome leads to, and what holds of every run.

use vstd::prelude::*;

verus! {

/// Why a process could not be started.
#[derive(Copy, Clone, Debug, PartialEq, Eq, Structural)]
pub enum StartProcessError {
    /// The pre command could not be launched.
    PreRunFailed,
    /// The pre command exited with a code other than zero.
    PreRunAborted(i32),
    /// The pre command was killed before it could exit.
    PreRunKilled,
    /// The run command could not be launched.
    RunFailed,
}

/// Why a process could not be stopped cleanly.
#[derive(Copy, Clone, Debug, PartialEq, Eq, Structural)]
pub enum StopProcessError {
    /// The stop mechanism could not be applied.
    StopFailed,
    /// The process exited with a code other than zero.
    ProcessAborted(i32),
    /// The process was killed before it could be stopped.
    ProcessKilled,
    /// The post command failed.
    PostRunFailed,
}

/// What set a shutdown off.
#[derive(Copy, Clone, Debug, PartialEq, Eq, Structural)]
pub enum Trigger {
    /// The outside shutdown input yielded a value.
    ShutdownRequested,
    /// The outside shutdown input was closed without a value.
    ShutdownClosed,
    /// A running child exited.
    ChildExited,
}

impl Trigger {
    /// The trigger that the outside shutdown input gives: a value on it and
    /// its closing both ask for a shutdown.
    pub fn external(received: Option<()>) -> (out: Trigger)
        ensures
            out == (match received {
                Some(_) => Trigger::ShutdownRequested,
                None => Trigger::ShutdownClosed,
            }),
    {
        match received {
            Some(_) => Trigger::ShutdownRequested,
            None => Trigger::ShutdownClosed,
        }
    }
}

/// Where the supervisor stands.
#[derive(Copy, Clone, Debug, PartialEq, Eq, Structural)]
pub enum Phase {
    /// A start is under way.
    Starting,
    /// A start failed; a stop of an earlier process is under way.
    Rollback,
    /// A start failed and every earlier process is stopped; the trigger
    /// channel is being drained.
    Draining,
    /// Every process is started; the first trigger is awaited.
    Running,
    /// A trigger arrived; a stop is under way.
    Teardown,
    /// Nothing is left to do.
    Done,
}

/// What the supervisor is told: the outcome of what it asked for last.
pub enum Input {
    /// The start succeeded.
    Started,
    /// The start failed.
    StartFailed(StartProcessError),
    /// The stop returned, cleanly or not.
    Stopped(Result<(), StopProcessError>),
    /// The trigger channel is closed and empty.
    Drained,
    /// A trigger arrived.
    Triggered(Trigger),
}

/// What the supervisor asks for.
pub enum Command {
    /// Start the process at this place of the list.
    Start(nat),
    /// Stop the process that was started from this place.
    Stop(nat),
    /// Release the supervisor's own sender, then read the trigger channel
    /// until it closes.
    Drain,
    /// Forward the outside shutdown input into the trigger channel, and wait
    /// for the first trigger.
    AwaitTrigger,
    /// Return this result.
    Finish(Result<(), StartProcessError>),
    /// Nothing: the input was not awaited.
    Ignore,
}

/// A call on one of the processes, named by its place in the list.
pub enum Call {
    /// The process is started.
    Start(nat),
    /// The handle of the process is stopped.
    Stop(nat),
}

/// Starts of the first `count` processes, in order.
pub open spec fn starts(count: nat) -> Seq<Call> {
    Seq::new(count, |i: int| Call::Start(i as nat))
}

/// Stops of the processes from `high - 1` down to `low`.
pub open spec fn stops(high: nat, low: nat) -> Seq<Call> {
    Seq::new((high - low) as nat, |i: int| Call::Stop((high - 1 - i) as nat))
}

impl Command {
    /// The call that the command makes on a process, if it makes one.
    pub open spec fn calls(self) -> Seq<Call> {
        match self {
            Command::Start(i) => seq![Call::Start(i)],
            Command::Stop(i) => seq![Call::Stop(i)],
            _ => Seq::empty(),
        }
    }
}

/// The supervisor's state.
pub struct Model {
    /// How many processes are listed.
    pub total: nat,
    /// How many starts have succeeded.
    pub started: nat,
    /// How many handles are held: those of the processes `0..live`.
    pub live: nat,
    pub phase: Phase,
    /// The error of the start that failed, if one did.
    pub failure: Option<StartProcessError>,
}

impl Model {
    /// The state before any outcome.
    pub open spec fn initial(total: nat) -> Model {
        Model {
            total,
            started: 0,
            live: 0,
            phase: if total > 0 {
                Phase::Starting
            } else {
                Phase::Running
            },
            failure: None,
        }
    }

    /// What is asked for first.
    pub open spec fn first_command(total: nat) -> Command {
        if total > 0 {
            Command::Start(0)
        } else {
            Command::AwaitTrigger
        }
    }

    /// The states that a run can be in.
    pub open spec fn wf(self) -> bool {
        &&& self.live <= self.started <= self.total
        &&& match self.phase {
            Phase::Starting => self.failure is None && self.started < self.total && self.live
                == self.started,
            Phase::Rollback => self.failure is Some && self.live < self.started < self.total,
            Phase::Draining => self.failure is Some && self.live == 0 && self.started
                < self.total,
            Phase::Running => self.failure is None && self.live == self.started == self.total,
            Phase::Teardown => self.failure is None && self.live < self.started == self.total,
            Phase::Done => self.live == 0 && (self.failure is None <==> self.started
                == self.total),
        }
    }

    /// How many starts have been asked for.
    pub open spec fn attempted(self) -> nat {
        if self.phase == Phase::Starting || self.failure is Some {
            self.started + 1
        } else {
            self.started
        }
    }

    /// The calls asked for so far, in order.
    pub open spec fn calls(self) -> Seq<Call> {
        starts(self.attempted()) + stops(self.started, self.live)
    }

    /// The outcomes of the starts that have returned, in order.
    pub open spec fn outcomes(self) -> Seq<Result<(), StartProcessError>> {
        match self.failure {
            Some(err) => Seq::new(self.started, |i: int| Ok(())).push(Err(err)),
            None => Seq::new(self.started, |i: int| Ok(())),
        }
    }

    /// What the run returns.
    pub open spec fn result(self) -> Result<(), StartProcessError> {
        match self.failure {
            Some(err) => Err(err),
            None => Ok(()),
        }
    }

    /// The stop of the topmost handle, or `otherwise` when none is held.
    pub open spec fn stop_or(self, otherwise: Command) -> Command {
        if self.live > 0 {
            Command::Stop((self.live - 1) as nat)
        } else {
            otherwise
        }
    }

    /// What the supervisor asks for when `input` arrives.
    pub open spec fn react(self, input: Input) -> Command {
        match (self.phase, input) {
            (Phase::Starting, Input::Started) => if self.started + 1 < self.total {
                Command::Start(self.started + 1)
            } else {
                Command::AwaitTrigger
            },
            (Phase::Starting, Input::StartFailed(_)) => self.stop_or(Command::Drain),
            (Phase::Rollback, Input::Stopped(_)) => self.stop_or(Command::Drain),
            (Phase::Draining, Input::Drained) => Command::Finish(self.result()),
            (Phase::Running, Input::Triggered(_)) => self.stop_or(Command::Finish(Ok(()))),
            (Phase::Teardown, Input::Stopped(_)) => self.stop_or(Command::Finish(Ok(()))),
            _ => Command::Ignore,
        }
    }

    /// The state after `input`.
    pub open spec fn next(self, input: Input) -> Model {
        let failure = match (self.phase, input) {
            (Phase::Starting, Input::StartFailed(err)) => Some(err),
            _ => self.failure,
        };
        match self.react(input) {
            Command::Start(i) => Model { started: i, live: i, ..self },
            Command::AwaitTrigger => Model {
                started: self.total,
                live: self.total,
                phase: Phase::Running,
                ..self
            },
            Command::Stop(i) => Model {
                live: i,
                phase: if failure is Some {
                    Phase::Rollback
                } else {
                    Phase::Teardown
                },
                failure,
                ..self
            },
            Command::Drain => Model { phase: Phase::Draining, failure, ..self },
            Command::Finish(_) => Model { phase: Phase::Done, ..self },
            Command::Ignore => self,
        }
    }
}

/// The state after the inputs of a run, taken in order.
pub open spec fn run(total: nat, inputs: Seq<Input>) -> Model
    decreases inputs.len(),
{
    if inputs.len() == 0 {
        Model::initial(total)
    } else {
        run(total, inputs.drop_last()).next(inputs.last())
    }
}

/// The calls that a run asks for, in order: those of its first command and of
/// its reaction to each input.
pub open spec fn trace(total: nat, inputs: Seq<Input>) -> Seq<Call>
    decreases inputs.len(),
{
    if inputs.len() == 0 {
        Model::first_command(total).calls()
    } else {
        trace(total, inputs.drop_last()) + run(total, inputs.drop_last()).react(
            inputs.last(),
        ).calls()
    }
}

/// An input leads from a state of a run to a state of a run, and adds to the
/// calls exactly the call of the reaction.
pub proof fn step_extends_calls(m: Model, input: Input)
    requires
        m.wf(),
    ensures
        m.next(input).wf(),
        m.next(input).total == m.total,
        m.next(input).calls() == m.calls() + m.react(input).calls(),
{
    let n = m.next(input);
    assert(n.calls() =~= m.calls() + m.react(input).calls());
}

/// Whatever the inputs, a run is in one of the states of `Model::wf`, and
/// the calls of that state are the calls that were asked for on the way.
pub proof fn run_is_traced(total: nat, inputs: Seq<Input>)
    ensures
        run(total, inputs).wf(),
        run(total, inputs).total == total,
        run(total, inputs).calls() == trace(total, inputs),
    decreases inputs.len(),
{
    if inputs.len() == 0 {
        assert(Model::initial(total).calls() =~= Model::first_command(total).calls());
    } else {
        run_is_traced(total, inputs.drop_last());
        step_extends_calls(run(total, inputs.drop_last()), inputs.last());
    }
}

/// The inputs of `count` starts that succeed.
pub open spec fn started_inputs(count: nat) -> Seq<Input> {
    Seq::new(count, |i: int| Input::Started)
}

/// The inputs of stops that end as `outcomes` says, in order.
pub open spec fn stopped_inputs(outcomes: Seq<Result<(), StopProcessError>>) -> Seq<Input> {
    Seq::new(outcomes.len(), |i: int| Input::Stopped(outcomes[i]))
}

/// The inputs of a run in which every one of `total` starts succeeds, then
/// `trigger` arrives, then every stop returns.
pub open spec fn clean_inputs(
    total: nat,
    trigger: Trigger,
    outcomes: Seq<Result<(), StopProcessError>>,
) -> Seq<Input> {
    started_inputs(total).push(Input::Triggered(trigger)) + stopped_inputs(outcomes)
}

/// The inputs of a run in which `k` starts succeed, the next fails with
/// `err`, every stop returns, and the trigger channel drains.
pub open spec fn failing_inputs(
    k: nat,
    err: StartProcessError,
    outcomes: Seq<Result<(), StopProcessError>>,
) -> Seq<Input> {
    (started_inputs(k).push(Input::StartFailed(err)) + stopped_inputs(outcomes)).push(
        Input::Drained,
    )
}

/// One more input leads to the next state.
proof fn run_push(total: nat, inputs: Seq<Input>, input: Input)
    ensures
        run(total, inputs.push(input)) == run(total, inputs).next(input),
{
    assert(inputs.push(input).drop_last() =~= inputs);
}

/// After `count` starts that succeeded, that many handles are held; the last
/// of them leads to steady state.
proof fn run_after_starts(total: nat, count: nat)
    requires
        count <= total,
    ensures
        run(total, started_inputs(count)) == (Model {
            total,
            started: count,
            live: count,
            phase: if count < total {
                Phase::Starting
            } else {
                Phase::Running
            },
            failure: None,
        }),
    decreases count,
{
    if count > 0 {
        let before = (count - 1) as nat;
        run_after_starts(total, before);
        assert(started_inputs(count) =~= started_inputs(before).push(Input::Started));
        run_push(total, started_inputs(before), Input::Started);
    }
}

/// While handles are stopped, each stop that returns takes the next handle;
/// the stop of the last one ends the teardown, or the rollback.
proof fn run_after_stops(
    total: nat,
    prefix: Seq<Input>,
    outcomes: Seq<Result<(), StopProcessError>>,
)
    requires
        run(total, prefix).wf(),
        run(total, prefix).phase == Phase::Teardown || run(total, prefix).phase
            == Phase::Rollback,
        outcomes.len() <= run(total, prefix).live + 1,
    ensures
        outcomes.len() <= run(total, prefix).live ==> run(total, prefix + stopped_inputs(outcomes))
            == (Model {
            live: (run(total, prefix).live - outcomes.len()) as nat,
            ..run(total, prefix)
        }),
        outcomes.len() == run(total, prefix).live + 1 ==> run(
            total,
            prefix + stopped_inputs(outcomes),
        ) == (Model {
            live: 0,
            phase: if run(total, prefix).phase == Phase::Teardown {
                Phase::Done
            } else {
                Phase::Draining
            },
            ..run(total, prefix)
        }),
    decreases outcomes.len(),
{
    if outcomes.len() == 0 {
        assert(prefix + stopped_inputs(outcomes) =~= prefix);
    } else {
        let before = outcomes.drop_last();
        run_after_stops(total, prefix, before);
        let input = Input::Stopped(outcomes.last());
        assert(prefix + stopped_inputs(outcomes) =~= (prefix + stopped_inputs(before)).push(
            input,
        ));
        run_push(total, prefix + stopped_inputs(before), input);
    }
}

/// For every list of `total` processes whose starts all succeed: once a
/// trigger has arrived and the stops have returned, whatever their outcomes,
/// the run is done, it returns success, and its calls are the `total` starts
/// in order and then the `total` stops, last started first.
pub proof fn clean_run_finishes(
    total: nat,
    trigger: Trigger,
    outcomes: Seq<Result<(), StopProcessError>>,
)
    requires
        outcomes.len() == total,
    ensures
        run(total, clean_inputs(total, trigger, outcomes)).phase == Phase::Done,
        run(total, clean_inputs(total, trigger, outcomes)).result() == Ok::<
            (),
            StartProcessError,
        >(()),
        trace(total, clean_inputs(total, trigger, outcomes)) == starts(total) + stops(total, 0),
{
    let prefix = started_inputs(total).push(Input::Triggered(trigger));
    run_after_starts(total, total);
    run_push(total, started_inputs(total), Input::Triggered(trigger));
    if total == 0 {
        assert(prefix + stopped_inputs(outcomes) =~= prefix);
    } else {
        run_is_traced(total, prefix);
        run_after_stops(total, prefix, outcomes);
    }
    run_is_traced(total, clean_inputs(total, trigger, outcomes));
}

/// For every list of `total` processes in which the start of process `k`
/// fails with `err` after the starts before it succeeded: once the stops have
/// returned, whatever their outcomes, and the trigger channel has drained,
/// the run is done, it returns `err`, and its calls are the starts of the
/// processes `0..=k` in order and then the stops of the processes `0..k`,
/// last started first.
pub proof fn failing_run_finishes(
    total: nat,
    k: nat,
    err: StartProcessError,
    outcomes: Seq<Result<(), StopProcessError>>,
)
    requires
        k < total,
        outcomes.len() == k,
    ensures
        run(total, failing_inputs(k, err, outcomes)).phase == Phase::Done,
        run(total, failing_inputs(k, err, outcomes)).result() == Err::<(), StartProcessError>(
            err,
        ),
        trace(total, failing_inputs(k, err, outcomes)) == starts(k + 1) + stops(k, 0),
{
    let prefix = started_inputs(k).push(Input::StartFailed(err));
    run_after_starts(total, k);
    run_push(total, started_inputs(k), Input::StartFailed(err));
    if k == 0 {
        assert(prefix + stopped_inputs(outcomes) =~= prefix);
    } else {
        run_is_traced(total, prefix);
        run_after_stops(total, prefix, outcomes);
    }
    run_push(total, prefix + stopped_inputs(outcomes), Input::Drained);
    run_is_traced(total, failing_inputs(k, err, outcomes));
}

/// A run in which every start succeeded and which has finished has started
/// every process in order and then stopped every one, last started first.
pub proof fn clean_run_stops_all_in_reverse(total: nat, inputs: Seq<Input>)
    requires
        run(total, inputs).phase == Phase::Done,
        run(total, inputs).failure is None,
    ensures
        trace(total, inputs) == starts(total) + stops(total, 0),
        trace(total, inputs).len() == 2 * total,
        forall|i: int| 0 <= i < total ==> trace(total, inputs)[i] == Call::Start(i as nat),
        forall|p: int|
            total <= p < 2 * total ==> trace(total, inputs)[p] == Call::Stop(
                (2 * total - 1 - p) as nat,
            ),
{
    run_is_traced(total, inputs);
}

/// A run in which the start of process `k` failed and which has finished has
/// started the processes `0..=k` in order, then stopped the processes
/// `0..k`, last started first, and has touched no later process.
pub proof fn failed_run_rolls_back(total: nat, inputs: Seq<Input>, k: nat)
    requires
        run(total, inputs).phase == Phase::Done,
        run(total, inputs).failure is Some,
        run(total, inputs).started == k,
    ensures
        k < total,
        trace(total, inputs) == starts(k + 1) + stops(k, 0),
        trace(total, inputs).len() == 2 * k + 1,
        forall|i: int| 0 <= i <= k ==> trace(total, inputs)[i] == Call::Start(i as nat),
        forall|p: int|
            k < p < 2 * k + 1 ==> trace(total, inputs)[p] == Call::Stop((2 * k - p) as nat),
        forall|i: int, j: nat|
            0 <= i < trace(total, inputs).len() && j > k ==> trace(total, inputs)[i]
                != Call::Start(j),
{
    run_is_traced(total, inputs);
}

/// In every run, a process is stopped only after it was started, and at most
/// once.
pub proof fn stops_follow_starts_once(total: nat, inputs: Seq<Input>)
    ensures
        forall|p: int, i: nat|
            0 <= p < trace(total, inputs).len() && trace(total, inputs)[p] == Call::Stop(i)
                ==> i < p && trace(total, inputs)[i as int] == Call::Start(i),
        forall|p: int, q: int, i: nat|
            0 <= p < trace(total, inputs).len() && 0 <= q < trace(total, inputs).len()
                && trace(total, inputs)[p] == Call::Stop(i) && trace(total, inputs)[q]
                == Call::Stop(i) ==> p == q,
{
    run_is_traced(total, inputs);
}

/// In every run, processes are started in the order of the list,
/// each at most once, and the next only after the one before it succeeded.
pub proof fn starts_are_in_order(total: nat, inputs: Seq<Input>)
    ensures
        forall|p: int, i: nat|
            0 <= p < trace(total, inputs).len() && trace(total, inputs)[p] == Call::Start(i)
                ==> p == i && i < total,
        run(total, inputs).attempted() <= run(total, inputs).outcomes().len() + 1,
        forall|i: int|
            0 <= i < run(total, inputs).outcomes().len() - 1 ==> run(
                total,
                inputs,
            ).outcomes()[i] is Ok,
{
    run_is_traced(total, inputs);
}

/// A finished run returns success exactly if every start that was attempted
/// succeeded, which is to say that no input was a failed start that arrived
/// while a start was under way; otherwise it returns the error of the start
/// that failed.
pub proof fn success_iff_all_starts_succeeded(total: nat, inputs: Seq<Input>)
    requires
        run(total, inputs).phase == Phase::Done,
    ensures
        run(total, inputs).outcomes().len() == run(total, inputs).attempted(),
        run(total, inputs).result() is Ok <==> forall|i: int|
            0 <= i < run(total, inputs).outcomes().len() ==> run(total, inputs).outcomes()[i]
                is Ok,
        run(total, inputs).result() is Err ==> run(total, inputs).outcomes().last() == run(
            total,
            inputs,
        ).result(),
        run(total, inputs).result() is Ok <==> forall|i: int|
            !start_fails_at(total, inputs, i),
{
    run_is_traced(total, inputs);
    failure_comes_from_inputs(total, inputs);
    let m = run(total, inputs);
    if m.failure is Some {
        assert(m.outcomes()[m.started as int] is Err);
    }
}

/// Whether input `i` of a run is a failed start that arrives while a start
/// is under way.
pub open spec fn start_fails_at(total: nat, inputs: Seq<Input>, i: int) -> bool {
    &&& 0 <= i < inputs.len()
    &&& inputs[i] is StartFailed
    &&& run(total, inputs.take(i)).phase == Phase::Starting
}

/// A run holds a failure exactly if one of its inputs was a failed start
/// that arrived while a start was under way, and the failure it holds is the
/// error of that input.
pub proof fn failure_comes_from_inputs(total: nat, inputs: Seq<Input>)
    ensures
        run(total, inputs).failure is Some <==> exists|i: int|
            start_fails_at(total, inputs, i),
        forall|i: int| #[trigger]
            start_fails_at(total, inputs, i) ==> run(total, inputs).failure == Some(
                inputs[i]->StartFailed_0,
            ),
    decreases inputs.len(),
{
    if inputs.len() > 0 {
        let before = inputs.drop_last();
        let last = inputs.len() - 1;
        let m = run(total, before);
        failure_comes_from_inputs(total, before);
        run_is_traced(total, before);
        first_failure_is_kept(m, inputs.last());
        assert(inputs.take(last) =~= before);
        assert forall|i: int| 0 <= i < last implies start_fails_at(total, inputs, i)
            == start_fails_at(total, before, i) by {
            assert(inputs.take(i) =~= before.take(i));
        }
        if run(total, inputs).failure is Some {
            if m.failure is Some {
                let i = choose|i: int| start_fails_at(total, before, i);
                assert(start_fails_at(total, inputs, i));
            } else {
                assert(start_fails_at(total, inputs, last));
            }
        }
        assert forall|i: int| #[trigger]
            start_fails_at(total, inputs, i) implies run(total, inputs).failure == Some(
            inputs[i]->StartFailed_0,
        ) by {
            if i < last {
                assert(start_fails_at(total, before, i));
            }
        }
    }
}

/// A start that fails is the one whose error the run returns: the state keeps
/// the first failure, and no later input changes it.
pub proof fn first_failure_is_kept(m: Model, input: Input)
    requires
        m.wf(),
    ensures
        m.failure is Some ==> m.next(input).failure == m.failure,
        m.phase == Phase::Starting && input is StartFailed ==> m.next(input).failure == Some(
            input->StartFailed_0,
        ),
        m.next(input).failure is Some ==> m.failure is Some || input is StartFailed,
{
}

/// How a stop ended does not matter: a stop that failed leads where a clean
/// stop leads.
pub proof fn stop_errors_are_discarded(m: Model, err: StopProcessError)
    ensures
        m.next(Input::Stopped(Err(err))) == m.next(Input::Stopped(Ok(()))),
        m.react(Input::Stopped(Err(err))) == m.react(Input::Stopped(Ok(()))),
{
}

/// Closing the outside shutdown input does what sending a value on it does,
/// and so does the exit of a child.
pub proof fn triggers_are_alike(m: Model, first: Trigger, second: Trigger)
    ensures
        m.next(Input::Triggered(first)) == m.next(Input::Triggered(second)),
        m.react(Input::Triggered(first)) == m.react(Input::Triggered(second)),
{
}

/// The first trigger in steady state begins the teardown, or ends the run
/// where nothing was started; from then on a trigger changes nothing and asks
/// for nothing.
pub proof fn teardown_begins_once(m: Model, first: Trigger, later: Trigger)
    requires
        m.wf(),
        m.phase == Phase::Running,
    ensures
        m.next(Input::Triggered(first)).phase == (if m.total > 0 {
            Phase::Teardown
        } else {
            Phase::Done
        }),
        m.react(Input::Triggered(first)) == (if m.total > 0 {
            Command::Stop((m.total - 1) as nat)
        } else {
            Command::Finish(Ok(()))
        }),
        forall|after: Model|
            after.wf() && (after.phase == Phase::Teardown || after.phase == Phase::Done) ==> (
            #[trigger] after.next(Input::Triggered(later))) == after && after.react(
                Input::Triggered(later),
            ) == Command::Ignore,
{
}

} // verus!
