//! The engine as its owner sees it.

use crate::routing::GraphModel;
use crate::runtime::config::{
    config_fault, sink_streams, source_streams, topology_changed, validate_config,
    AudioEngineConfig, AudioEngineError, EngineFault,
};
use crate::runtime::status::{no_stats, AudioEngineState, AudioEngineStats, AudioEngineStatus};
use crate::snapshot::RouteGraphSnapshot;
use vstd::prelude::*;

verus! {

/// An audio engine.
///
/// The threads that do the work belong to its owner: `start` says that they may begin,
/// `request_stop` that they are to end, and `stop` that they are gone. Until then their
/// reports are handed to `take_report`.
#[derive(Debug)]
pub struct AudioEngine {
    /// What the engine works with.
    pub config: AudioEngineConfig,
    /// What the engine is doing.
    pub state: AudioEngineState,
    /// Whether the threads are to end.
    pub stop_requested: bool,
    /// Why the last session ended, if it ended with an error.
    pub last_error: Option<String>,
    /// What was counted since the engine was made.
    pub stats: AudioEngineStats,
    /// Whether a session is there that takes graphs.
    pub session_open: bool,
}

/// What the threads of an engine report.
#[derive(Debug, PartialEq, Eq)]
pub struct EngineReport {
    pub state: AudioEngineState,
    pub last_error: Option<String>,
    pub stats: AudioEngineStats,
    pub session_open: bool,
}

/// What an `AudioEngine` is.
#[verifier::ext_equal]
pub struct EngineModel {
    pub graph: GraphModel,
    pub block_frames: usize,
    pub fifo_capacity_frames: usize,
    pub state: AudioEngineState,
    pub stop_requested: bool,
    pub last_error: Option<Seq<char>>,
    pub stats: AudioEngineStats,
    pub session_open: bool,
}

impl View for AudioEngine {
    type V = EngineModel;

    open spec fn view(&self) -> EngineModel {
        EngineModel {
            graph: self.config.graph@,
            block_frames: self.config.block_frames,
            fifo_capacity_frames: self.config.fifo_capacity_frames,
            state: self.state,
            stop_requested: self.stop_requested,
            last_error: crate::routing::optional_text(self.last_error),
            stats: self.stats,
            session_open: self.session_open,
        }
    }
}

impl EngineModel {
    /// Why the engine refuses what it is configured with, if it does.
    pub open spec fn config_fault(self, graph: GraphModel) -> Option<EngineFault> {
        config_fault(graph, self.block_frames as nat, self.fifo_capacity_frames as nat)
    }

    /// Why the engine refuses a graph, if it does: it is no graph for an engine, it needs
    /// other streams, or nothing is there to take it.
    pub open spec fn update_fault(self, graph: GraphModel) -> Option<EngineFault> {
        match self.config_fault(graph) {
            Some(fault) => Some(fault),
            None => if source_streams(self.graph) != source_streams(graph) || sink_streams(
                self.graph,
            ) != sink_streams(graph) {
                Some(EngineFault::EndpointChangeRequiresRestart)
            } else if !self.session_open {
                Some(EngineFault::NotRunning)
            } else {
                None
            },
        }
    }

    /// After a report of the threads.
    pub open spec fn reported(self, report: EngineReport) -> EngineModel {
        EngineModel {
            state: report.state,
            last_error: crate::routing::optional_text(report.last_error),
            stats: report.stats,
            session_open: report.session_open,
            ..self
        }
    }

    /// Whether the engine can work with what it is configured with.
    pub open spec fn wf(self) -> bool {
        self.config_fault(self.graph) is None
    }
}

impl AudioEngine {
    /// An engine that stands still.
    pub fn new(config: AudioEngineConfig) -> (result: Result<Self, AudioEngineError>)
        ensures
            match result {
                Ok(engine) => engine@.wf() && engine@ == (EngineModel {
                    graph: config.graph@,
                    block_frames: config.block_frames,
                    fifo_capacity_frames: config.fifo_capacity_frames,
                    state: AudioEngineState::Stopped,
                    stop_requested: false,
                    last_error: None,
                    stats: no_stats(),
                    session_open: false,
                }),
                Err(e) => config_fault(
                    config.graph@,
                    config.block_frames as nat,
                    config.fifo_capacity_frames as nat,
                ) == Some(e@),
            },
    {
        if let Err(e) = validate_config(&config) {
            return Err(e);
        }
        Ok(
            AudioEngine {
                config,
                state: AudioEngineState::Stopped,
                stop_requested: false,
                last_error: None,
                stats: AudioEngineStats::default(),
                session_open: false,
            },
        )
    }

    /// The graph that the next session is started with.
    pub fn graph(&self) -> (graph: &RouteGraphSnapshot)
        ensures
            graph@ == self@.graph,
    {
        &self.config.graph
    }

    /// The frames of a block.
    pub fn block_frames(&self) -> (frames: usize)
        ensures
            frames == self@.block_frames,
    {
        self.config.block_frames
    }

    /// The frames that a queue holds.
    pub fn fifo_capacity_frames(&self) -> (frames: usize)
        ensures
            frames == self@.fifo_capacity_frames,
    {
        self.config.fifo_capacity_frames
    }

    /// Starts the engine. One that is not stopped is not started again, not even where it
    /// has failed.
    pub fn start(&mut self) -> (result: Result<(), AudioEngineError>)
        ensures
            match result {
                Ok(_) => old(self)@.state == AudioEngineState::Stopped && final(self)@ == (
                EngineModel {
                    state: AudioEngineState::Running,
                    stop_requested: false,
                    last_error: None,
                    ..old(self)@
                }),
                Err(e) => {
                    &&& old(self)@.state != AudioEngineState::Stopped
                    &&& final(self)@ == old(self)@
                    &&& e@ == EngineFault::AlreadyRunning
                },
            },
    {
        if self.state != AudioEngineState::Stopped {
            return Err(AudioEngineError::AlreadyRunning);
        }
        self.last_error = None;
        self.stop_requested = false;
        self.state = AudioEngineState::Running;
        Ok(())
    }

    /// Gives a running engine another graph, which has to differ in sends alone. A graph
    /// that is refused changes nothing.
    pub fn update_graph(&mut self, graph: RouteGraphSnapshot) -> (result: Result<
        (),
        AudioEngineError,
    >)
        ensures
            match result {
                Ok(_) => old(self)@.update_fault(graph@) is None && final(self)@ == (EngineModel {
                    graph: graph@,
                    ..old(self)@
                }) && final(self)@.wf(),
                Err(e) => old(self)@.update_fault(graph@) == Some(e@) && final(self)@ == old(self)@,
            },
    {
        let next = AudioEngineConfig {
            graph,
            block_frames: self.config.block_frames,
            fifo_capacity_frames: self.config.fifo_capacity_frames,
        };
        if let Err(e) = validate_config(&next) {
            return Err(e);
        }
        if topology_changed(self.config.graph.graph(), next.graph.graph()) {
            return Err(AudioEngineError::EndpointChangeRequiresRestart);
        }
        if !self.session_open {
            return Err(AudioEngineError::NotRunning);
        }
        self.config = next;
        Ok(())
    }

    /// Says that the threads are to end.
    pub fn request_stop(&mut self) -> (result: Result<(), AudioEngineError>)
        ensures
            match result {
                Ok(_) => old(self)@.state != AudioEngineState::Stopped && final(self)@ == (
                EngineModel { stop_requested: true, ..old(self)@ }),
                Err(e) => {
                    &&& old(self)@.state == AudioEngineState::Stopped
                    &&& final(self)@ == old(self)@
                    &&& e@ == EngineFault::NotRunning
                },
            },
    {
        if self.state == AudioEngineState::Stopped {
            return Err(AudioEngineError::NotRunning);
        }
        self.stop_requested = true;
        Ok(())
    }

    /// Stops the engine, once its threads are gone.
    pub fn stop(&mut self) -> (result: Result<(), AudioEngineError>)
        ensures
            match result {
                Ok(_) => old(self)@.state != AudioEngineState::Stopped && final(self)@ == (
                EngineModel {
                    state: AudioEngineState::Stopped,
                    stop_requested: true,
                    session_open: false,
                    ..old(self)@
                }),
                Err(e) => {
                    &&& old(self)@.state == AudioEngineState::Stopped
                    &&& final(self)@ == old(self)@
                    &&& e@ == EngineFault::NotRunning
                },
            },
    {
        if let Err(e) = self.request_stop() {
            return Err(e);
        }
        self.session_open = false;
        self.state = AudioEngineState::Stopped;
        Ok(())
    }

    /// Takes a report of the threads.
    pub fn take_report(&mut self, report: EngineReport)
        ensures
            final(self)@ == old(self)@.reported(report),
    {
        self.state = report.state;
        self.last_error = report.last_error;
        self.stats = report.stats;
        self.session_open = report.session_open;
    }

    /// What is told of the engine.
    pub fn status(&self) -> (status: AudioEngineStatus)
        ensures
            status.state == self@.state,
            status.running == (self@.state == AudioEngineState::Running),
            status.failed == (self@.state == AudioEngineState::Failed),
            crate::routing::optional_text(status.last_error) == self@.last_error,
            status.stats == self@.stats,
    {
        let last_error = match &self.last_error {
            Some(text) => Some(text.clone()),
            None => None,
        };
        AudioEngineStatus {
            state: self.state,
            running: self.state == AudioEngineState::Running,
            failed: self.state == AudioEngineState::Failed,
            last_error,
            stats: self.stats,
        }
    }
}

/// A graph that a running engine takes keeps its streams, so a session never has to be
/// built again for it.
pub proof fn law_update_keeps_streams(engine: EngineModel, graph: GraphModel)
    requires
        engine.update_fault(graph) is None,
    ensures
        source_streams(engine.graph) == source_streams(graph),
        sink_streams(engine.graph) == sink_streams(graph),
        engine.session_open,
{
}

} // verus!
