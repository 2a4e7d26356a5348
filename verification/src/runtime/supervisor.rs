//! What keeps an engine going: sessions are started, watched, and started again after a
//! device was lost.

use crate::runtime::config::DEFAULT_RECONNECT_ATTEMPTS;
use crate::runtime::status::{bump, bumped, fail, mark_reconnect_exhausted, AudioEngineState};
use crate::windows::endpoint::{fault_text, WindowsAudioError, WindowsFault};
use vstd::prelude::*;

verus! {

/// What the supervisor does next.
#[derive(Clone, Copy, Debug, PartialEq, Eq, Structural)]
pub enum SupervisorStep {
    /// Begin another attempt.
    Begin,
    /// Wait for the delay between two attempts.
    Delay,
    /// Ask whether all endpoints are active.
    CheckEndpoints,
    /// Make the queues, start the workers and wait for them to settle.
    StartSession,
    /// Wait until the session ends or the engine is told to stop, then join the workers.
    WatchSession,
    /// Nothing more.
    Finish,
}

/// What came of a step.
#[derive(Debug, PartialEq, Eq)]
pub enum SupervisorEvent {
    /// An attempt is due.
    Begun,
    /// The delay is over. Says whether the graph has endpoints to ask for.
    DelayOver { needs_check: bool },
    /// What was found of the endpoints.
    Checked(Result<bool, WindowsAudioError>),
    /// The queues could not be made.
    SessionRefused { reason: String },
    /// The workers have settled. Says whether one of them has stopped the session.
    SessionStarted { stopped: bool },
    /// The session is over and its workers are gone.
    SessionEnded,
}

/// What a `SupervisorEvent` says.
#[verifier::ext_equal]
pub enum SupervisorEventModel {
    Begun,
    DelayOver { needs_check: bool },
    Checked(Result<bool, WindowsFault>),
    SessionRefused { reason: Seq<char> },
    SessionStarted { stopped: bool },
    SessionEnded,
}

impl View for SupervisorEvent {
    type V = SupervisorEventModel;

    open spec fn view(&self) -> SupervisorEventModel {
        match *self {
            SupervisorEvent::Begun => SupervisorEventModel::Begun,
            SupervisorEvent::DelayOver { needs_check } => SupervisorEventModel::DelayOver {
                needs_check,
            },
            SupervisorEvent::Checked(Ok(active)) => SupervisorEventModel::Checked(Ok(active)),
            SupervisorEvent::Checked(Err(e)) => SupervisorEventModel::Checked(Err(e@)),
            SupervisorEvent::SessionRefused { reason } => SupervisorEventModel::SessionRefused {
                reason: reason@,
            },
            SupervisorEvent::SessionStarted { stopped } => SupervisorEventModel::SessionStarted {
                stopped,
            },
            SupervisorEvent::SessionEnded => SupervisorEventModel::SessionEnded,
        }
    }
}

/// Whether the event can come of the step.
pub open spec fn comes_of(step: SupervisorStep, event: SupervisorEventModel) -> bool {
    match step {
        SupervisorStep::Begin => event is Begun,
        SupervisorStep::Delay => event is DelayOver,
        SupervisorStep::CheckEndpoints => event is Checked,
        SupervisorStep::StartSession => event is SessionRefused || event is SessionStarted,
        SupervisorStep::WatchSession => event is SessionEnded,
        SupervisorStep::Finish => false,
    }
}

/// The supervisor of an engine, and what it shares with the engine: the state, the wish
/// to stop and the last error.
#[derive(Debug, PartialEq, Eq)]
pub struct Supervisor {
    pub attempt: usize,
    pub step: SupervisorStep,
    pub state: AudioEngineState,
    pub engine_stop: bool,
    pub last_error: Option<String>,
    pub reconnect_attempts: u64,
}

/// What a `Supervisor` is.
#[verifier::ext_equal]
pub struct SupervisorModel {
    pub attempt: usize,
    pub step: SupervisorStep,
    pub state: AudioEngineState,
    pub engine_stop: bool,
    pub last_error: Option<Seq<char>>,
    pub reconnect_attempts: u64,
}

impl View for Supervisor {
    type V = SupervisorModel;

    open spec fn view(&self) -> SupervisorModel {
        SupervisorModel {
            attempt: self.attempt,
            step: self.step,
            state: self.state,
            engine_stop: self.engine_stop,
            last_error: crate::routing::optional_text(self.last_error),
            reconnect_attempts: self.reconnect_attempts,
        }
    }
}

impl SupervisorModel {
    /// Ready for the next attempt; out of attempts it gives up.
    pub open spec fn again(self) -> SupervisorModel {
        if self.attempt == DEFAULT_RECONNECT_ATTEMPTS {
            SupervisorModel {
                step: SupervisorStep::Finish,
                state: AudioEngineState::Failed,
                engine_stop: true,
                last_error: Some("设备重连等待窗口耗尽"@),
                ..self
            }
        } else {
            SupervisorModel {
                step: SupervisorStep::Begin,
                attempt: (self.attempt + 1) as usize,
                ..self
            }
        }
    }

    /// Ended by an error that does not pass. After a wish to stop the error is not told.
    pub open spec fn ended(self, error: Seq<char>) -> SupervisorModel {
        if self.engine_stop {
            SupervisorModel { step: SupervisorStep::Finish, ..self }
        } else {
            SupervisorModel {
                step: SupervisorStep::Finish,
                state: AudioEngineState::Failed,
                engine_stop: true,
                last_error: Some(error),
                ..self
            }
        }
    }

    /// Where an event leads.
    pub open spec fn after(self, event: SupervisorEventModel) -> SupervisorModel {
        match event {
            SupervisorEventModel::Begun => if self.engine_stop {
                SupervisorModel { step: SupervisorStep::Finish, ..self }
            } else if self.attempt > 0 {
                SupervisorModel {
                    step: SupervisorStep::Delay,
                    state: AudioEngineState::Reconnecting,
                    reconnect_attempts: bumped(self.reconnect_attempts, 1),
                    ..self
                }
            } else {
                SupervisorModel { step: SupervisorStep::StartSession, ..self }
            },
            SupervisorEventModel::DelayOver { needs_check } => SupervisorModel {
                step: if self.engine_stop {
                    SupervisorStep::Finish
                } else if needs_check {
                    SupervisorStep::CheckEndpoints
                } else {
                    SupervisorStep::StartSession
                },
                ..self
            },
            SupervisorEventModel::Checked(Ok(true)) => SupervisorModel {
                step: SupervisorStep::StartSession,
                ..self
            },
            SupervisorEventModel::Checked(Ok(false)) => self.again(),
            SupervisorEventModel::Checked(Err(fault)) => if fault.recoverable() {
                self.again()
            } else {
                self.ended(fault_text(fault))
            },
            SupervisorEventModel::SessionRefused { reason } => self.ended(reason),
            SupervisorEventModel::SessionStarted { stopped } => if stopped {
                SupervisorModel { step: SupervisorStep::WatchSession, ..self }
            } else {
                SupervisorModel {
                    step: SupervisorStep::WatchSession,
                    state: AudioEngineState::Running,
                    last_error: None,
                    ..self
                }
            },
            SupervisorEventModel::SessionEnded => if self.engine_stop || (self.state
                != AudioEngineState::Degraded && self.state != AudioEngineState::Reconnecting) {
                SupervisorModel { step: SupervisorStep::Finish, ..self }
            } else {
                self.again()
            },
        }
    }
}

impl Supervisor {
    /// The supervisor of an engine that was just started.
    pub fn new() -> (supervisor: Self)
        ensures
            supervisor@ == (SupervisorModel {
                attempt: 0,
                step: SupervisorStep::Begin,
                state: AudioEngineState::Running,
                engine_stop: false,
                last_error: None,
                reconnect_attempts: 0,
            }),
    {
        Supervisor {
            attempt: 0,
            step: SupervisorStep::Begin,
            state: AudioEngineState::Running,
            engine_stop: false,
            last_error: None,
            reconnect_attempts: 0,
        }
    }

    fn try_again(&mut self)
        requires
            old(self).attempt <= DEFAULT_RECONNECT_ATTEMPTS,
        ensures
            final(self)@ == old(self)@.again(),
    {
        if self.attempt == DEFAULT_RECONNECT_ATTEMPTS {
            mark_reconnect_exhausted(
                &mut self.state,
                &mut self.engine_stop,
                &mut self.last_error,
            );
            self.step = SupervisorStep::Finish;
        } else {
            self.attempt = self.attempt + 1;
            self.step = SupervisorStep::Begin;
        }
    }

    fn end(&mut self, error: String)
        ensures
            final(self)@ == old(self)@.ended(error@),
    {
        fail(&mut self.state, &mut self.engine_stop, &mut self.last_error, error);
        self.step = SupervisorStep::Finish;
    }

    /// Takes what came of the step.
    pub fn advance(&mut self, event: SupervisorEvent)
        requires
            comes_of(old(self).step, event@),
            old(self).attempt <= DEFAULT_RECONNECT_ATTEMPTS,
        ensures
            final(self)@ == old(self)@.after(event@),
            final(self).attempt <= DEFAULT_RECONNECT_ATTEMPTS,
    {
        match event {
            SupervisorEvent::Begun => {
                if self.engine_stop {
                    self.step = SupervisorStep::Finish;
                } else if self.attempt > 0 {
                    self.reconnect_attempts = bump(self.reconnect_attempts, 1);
                    self.state = AudioEngineState::Reconnecting;
                    self.step = SupervisorStep::Delay;
                } else {
                    self.step = SupervisorStep::StartSession;
                }
            },
            SupervisorEvent::DelayOver { needs_check } => {
                self.step = if self.engine_stop {
                    SupervisorStep::Finish
                } else if needs_check {
                    SupervisorStep::CheckEndpoints
                } else {
                    SupervisorStep::StartSession
                };
            },
            SupervisorEvent::Checked(result) => match result {
                Ok(active) => {
                    if active {
                        self.step = SupervisorStep::StartSession;
                    } else {
                        self.try_again();
                    }
                },
                Err(e) => {
                    if e.is_device_failure() {
                        self.try_again();
                    } else {
                        self.end(e.message());
                    }
                },
            },
            SupervisorEvent::SessionRefused { reason } => {
                self.end(reason);
            },
            SupervisorEvent::SessionStarted { stopped } => {
                if !stopped {
                    self.last_error = None;
                    self.state = AudioEngineState::Running;
                }
                self.step = SupervisorStep::WatchSession;
            },
            SupervisorEvent::SessionEnded => {
                if self.engine_stop || (self.state != AudioEngineState::Degraded && self.state
                    != AudioEngineState::Reconnecting) {
                    self.step = SupervisorStep::Finish;
                } else {
                    self.try_again();
                }
            },
        }
    }
}

/// How far a supervisor is within an attempt.
pub open spec fn step_rank(step: SupervisorStep) -> nat {
    match step {
        SupervisorStep::Begin => 5,
        SupervisorStep::Delay => 4,
        SupervisorStep::CheckEndpoints => 3,
        SupervisorStep::StartSession => 2,
        SupervisorStep::WatchSession => 1,
        SupervisorStep::Finish => 0,
    }
}

/// The steps that a supervisor can still take.
pub open spec fn steps_left(supervisor: SupervisorModel) -> int {
    6 * (DEFAULT_RECONNECT_ATTEMPTS - supervisor.attempt) + step_rank(supervisor.step)
}

/// A supervisor comes to an end: each event brings it nearer. A device that stays lost is
/// looked for only so often, whatever else happens to the state meanwhile.
pub proof fn law_supervision_ends(supervisor: SupervisorModel, event: SupervisorEventModel)
    requires
        comes_of(supervisor.step, event),
        supervisor.attempt <= DEFAULT_RECONNECT_ATTEMPTS,
    ensures
        0 <= steps_left(supervisor.after(event)) < steps_left(supervisor),
{
}

/// A supervisor that gives up on a lost device leaves the engine failed, with a reason.
pub proof fn law_giving_up_is_told(supervisor: SupervisorModel, event: SupervisorEventModel)
    requires
        comes_of(supervisor.step, event),
        supervisor.attempt == DEFAULT_RECONNECT_ATTEMPTS,
        !supervisor.engine_stop,
        supervisor.after(event).step == SupervisorStep::Finish,
        event is SessionEnded ==> supervisor.state == AudioEngineState::Degraded
            || supervisor.state == AudioEngineState::Reconnecting,
    ensures
        supervisor.after(event).state == AudioEngineState::Failed,
        supervisor.after(event).last_error is Some,
{
}

/// An engine that was told to stop starts no further session.
pub proof fn law_stop_ends_attempts(supervisor: SupervisorModel, event: SupervisorEventModel)
    requires
        comes_of(supervisor.step, event),
        supervisor.engine_stop,
        supervisor.step == SupervisorStep::Begin || supervisor.step == SupervisorStep::Delay
            || supervisor.step == SupervisorStep::WatchSession,
    ensures
        supervisor.after(event).step == SupervisorStep::Finish,
        supervisor.after(event).state == supervisor.state,
{
}

} // verus!
