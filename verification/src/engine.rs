//! The supervisor engine: it holds the handles of the running processes and
//! decides, outcome by outcome, what is started or stopped next.

use crate::model::{Command, Input, Model, Phase, StartProcessError, StopProcessError, Trigger};
use vstd::prelude::*;

verus! {

/// The outcome of what the engine asked for last. `H` is the handle of a
/// started process.
pub enum Event<H> {
    /// The start succeeded and yielded this handle.
    Started(H),
    /// The start failed.
    StartFailed(StartProcessError),
    /// The stop returned, cleanly or not.
    Stopped(Result<(), StopProcessError>),
    /// The trigger channel is closed and empty.
    Drained,
    /// A trigger arrived.
    Triggered(Trigger),
}

/// What the engine asks for.
pub enum Action<H> {
    /// Start the process at this place of the list, with a sender
    /// of the trigger channel.
    Start(usize),
    /// Stop the process that was started from this place; its handle is
    /// handed over for good.
    Stop(usize, H),
    /// Release the engine's own sender, then read the trigger channel until
    /// it closes.
    Drain,
    /// Forward the outside shutdown input into the trigger channel, and wait
    /// for the first trigger.
    AwaitTrigger,
    /// Return this result.
    Finish(Result<(), StartProcessError>),
    /// The event was not awaited: it is handed back, and nothing changed.
    Ignored(Event<H>),
}

impl<H> View for Event<H> {
    type V = Input;

    /// The event without the handle that a start yielded.
    open spec fn view(&self) -> Input {
        match self {
            Event::Started(_) => Input::Started,
            Event::StartFailed(err) => Input::StartFailed(*err),
            Event::Stopped(outcome) => Input::Stopped(*outcome),
            Event::Drained => Input::Drained,
            Event::Triggered(trigger) => Input::Triggered(*trigger),
        }
    }
}

impl<H> View for Action<H> {
    type V = Command;

    /// The action without the handle that is to be stopped, and without the
    /// event that is handed back.
    open spec fn view(&self) -> Command {
        match self {
            Action::Start(i) => Command::Start(*i as nat),
            Action::Stop(i, _) => Command::Stop(*i as nat),
            Action::Drain => Command::Drain,
            Action::AwaitTrigger => Command::AwaitTrigger,
            Action::Finish(result) => Command::Finish(*result),
            Action::Ignored(_) => Command::Ignore,
        }
    }
}

/// The supervisor engine for a list of `total` processes.
pub struct Engine<H> {
    total: usize,
    started: usize,
    phase: Phase,
    failure: Option<StartProcessError>,
    running: Vec<H>,
}

impl<H> View for Engine<H> {
    type V = Model;

    /// The engine's state, with the handles counted; `handles` gives the
    /// handles themselves.
    closed spec fn view(&self) -> Model {
        Model {
            total: self.total as nat,
            started: self.started as nat,
            live: self.running@.len(),
            phase: self.phase,
            failure: self.failure,
        }
    }
}

impl<H> Engine<H> {
    /// The handles that the engine holds, in the order of their starts.
    pub closed spec fn handles(&self) -> Seq<H> {
        self.running@
    }

    /// The engine is in a state of a run, and holds one handle for each
    /// live process.
    pub open spec fn wf(&self) -> bool {
        self@.wf() && self.handles().len() == self@.live
    }

    /// The handles after `event`, before any of them is handed out.
    pub open spec fn received(&self, event: Event<H>) -> Seq<H> {
        match event {
            Event::Started(handle) if self@.phase == Phase::Starting => self.handles().push(
                handle,
            ),
            _ => self.handles(),
        }
    }

    /// An engine for `total` processes, and what it asks for first.
    pub fn new(total: usize) -> (out: (Engine<H>, Action<H>))
        ensures
            out.0.wf(),
            out.0@ == Model::initial(total as nat),
            out.0.handles() == Seq::<H>::empty(),
            out.1@ == Model::first_command(total as nat),
    {
        let phase = if total > 0 {
            Phase::Starting
        } else {
            Phase::Running
        };
        let engine = Engine { total, started: 0, phase, failure: None, running: Vec::new() };
        let action = if total > 0 {
            Action::Start(0)
        } else {
            Action::AwaitTrigger
        };
        (engine, action)
    }

    /// Where the engine stands.
    pub fn phase(&self) -> (out: Phase)
        ensures
            out == self@.phase,
    {
        self.phase
    }

    /// How many handles the engine holds.
    pub fn running(&self) -> (out: usize)
        ensures
            out == self.handles().len(),
    {
        self.running.len()
    }

    /// Takes the topmost handle to stop it; `otherwise` when none is held.
    fn stop_next(&mut self, stopping: Phase, otherwise: Phase, rest: Action<H>) -> (action:
        Action<H>)
        requires
            !(rest@ is Stop),
        ensures
            final(self).total == old(self).total,
            final(self).started == old(self).started,
            final(self).failure == old(self).failure,
            old(self).running@.len() > 0 ==> final(self).phase == stopping && action
                == Action::Stop(
                (old(self).running@.len() - 1) as usize,
                old(self).running@.last(),
            ) && final(self).running@ == old(self).running@.drop_last(),
            old(self).running@.len() == 0 ==> final(self).phase == otherwise && action == rest
                && final(self).running@ == old(self).running@,
    {
        match self.running.pop() {
            Some(handle) => {
                self.phase = stopping;
                Action::Stop(self.running.len(), handle)
            },
            None => {
                self.phase = otherwise;
                rest
            },
        }
    }

    /// Takes the outcome of what was asked for last, and says what is to be
    /// done next. An event that is not awaited in the engine's state comes
    /// back unchanged and changes nothing.
    pub fn step(&mut self, event: Event<H>) -> (action: Action<H>)
        requires
            old(self).wf(),
        ensures
            final(self).wf(),
            final(self)@ == old(self)@.next(event@),
            action@ == old(self)@.react(event@),
            match action {
                Action::Stop(i, handle) => old(self).received(event).len() == i + 1 && handle
                    == old(self).received(event)[i as int] && final(self).handles() == old(
                    self,
                ).received(event).take(i as int),
                Action::Ignored(back) => back == event && final(self).handles() == old(
                    self,
                ).handles(),
                _ => final(self).handles() == old(self).received(event),
            },
    {
        match (self.phase, event) {
            (Phase::Starting, Event::Started(handle)) => {
                self.running.push(handle);
                self.started = self.started + 1;
                if self.started < self.total {
                    Action::Start(self.started)
                } else {
                    self.phase = Phase::Running;
                    Action::AwaitTrigger
                }
            },
            (Phase::Starting, Event::StartFailed(err)) => {
                self.failure = Some(err);
                let action = self.stop_next(Phase::Rollback, Phase::Draining, Action::Drain);
                proof {
                    assert(old(self).running@.drop_last() =~= old(self).running@.take(
                        old(self).running@.len() - 1,
                    ));
                }
                action
            },
            (Phase::Rollback, Event::Stopped(_)) => {
                let action = self.stop_next(Phase::Rollback, Phase::Draining, Action::Drain);
                proof {
                    assert(old(self).running@.drop_last() =~= old(self).running@.take(
                        old(self).running@.len() - 1,
                    ));
                }
                action
            },
            (Phase::Draining, Event::Drained) => {
                self.phase = Phase::Done;
                let result = match self.failure {
                    Some(err) => Err(err),
                    None => Ok(()),
                };
                Action::Finish(result)
            },
            (Phase::Running, Event::Triggered(_)) | (Phase::Teardown, Event::Stopped(_)) => {
                let action = self.stop_next(
                    Phase::Teardown,
                    Phase::Done,
                    Action::Finish(Ok(())),
                );
                proof {
                    assert(old(self).running@.drop_last() =~= old(self).running@.take(
                        old(self).running@.len() - 1,
                    ));
                }
                action
            },
            (_, event) => Action::Ignored(event),
        }
    }

    /// What the run returns, once the engine is done: success, or the error
    /// of the start that failed.
    pub fn result(&self) -> (out: Option<Result<(), StartProcessError>>)
        ensures
            out == (if self@.phase == Phase::Done {
                Some(self@.result())
            } else {
                None
            }),
    {
        match self.phase {
            Phase::Done => match self.failure {
                Some(err) => Some(Err(err)),
                None => Some(Ok(())),
            },
            _ => None,
        }
    }
}

} // verus!
