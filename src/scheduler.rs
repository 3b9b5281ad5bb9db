//! Lifecycle of the two schedulers: the cooperative dispatcher bound to the
//! main thread, the background runtime, and the handle through which other
//! threads enqueue work on the dispatcher.
//!
//! The futures themselves run in the embedding code; this state machine
//! decides what each lifecycle call does and which requests are admitted.

use vstd::prelude::*;

verus! {

/// The dispatcher's phase.
#[derive(PartialEq, Eq, Structural, Clone, Copy, Debug)]
pub enum Phase {
    Uninitialized,
    Running,
    ShuttingDown,
}

/// The background runtime's life: it can be started and stopped once.
#[derive(PartialEq, Eq, Structural, Clone, Copy, Debug)]
pub enum RuntimeState {
    NotStarted,
    Started,
    Stopped,
}

/// A misuse of the schedulers' contract.
#[derive(PartialEq, Eq, Structural, Clone, Copy, Debug)]
pub enum SchedulerError {
    /// `initialize` while the dispatcher is not uninitialized.
    AlreadyInitialized,
    /// Work for the dispatcher while it is not running.
    DispatcherNotRunning,
    /// Work for the background runtime while it is not started.
    RuntimeNotRunning,
}

/// What `initialize` asks the caller to set up.
#[derive(PartialEq, Eq, Structural, Clone, Copy, Debug)]
pub struct InitActions {
    /// Build the background runtime.
    pub start_runtime: bool,
}

/// What `shutdown` asks the caller to tear down.
#[derive(PartialEq, Eq, Structural, Clone, Copy, Debug)]
pub struct ShutdownActions {
    /// Stop the background runtime with a bounded wait.
    pub stop_runtime: bool,
    /// Close the handle, drop the pending local tasks and the dispatcher,
    /// and unregister the tick callback.
    pub drop_dispatcher: bool,
}

/// The lifecycle of both schedulers of one process.
#[derive(PartialEq, Eq, Structural, Clone, Copy, Debug)]
pub struct AsyncManager {
    pub phase: Phase,
    pub runtime: RuntimeState,
}

impl AsyncManager {
    /// Nothing is set up yet.
    pub fn new() -> (r: Self)
        ensures
            r.phase == Phase::Uninitialized,
            r.runtime == RuntimeState::NotStarted,
    {
        AsyncManager { phase: Phase::Uninitialized, runtime: RuntimeState::NotStarted }
    }

    /// Creates the dispatcher and its handle, and builds the background
    /// runtime unless it was built before in this process. Fails when the
    /// dispatcher exists already.
    pub fn initialize(&mut self) -> (r: Result<InitActions, SchedulerError>)
        ensures
            old(self).phase != Phase::Uninitialized ==> r == Err::<InitActions, SchedulerError>(
                SchedulerError::AlreadyInitialized,
            ) && *final(self) == *old(self),
            old(self).phase == Phase::Uninitialized ==> {
                &&& final(self).phase == Phase::Running
                &&& r == Ok::<InitActions, SchedulerError>(
                    InitActions { start_runtime: old(self).runtime == RuntimeState::NotStarted },
                )
                &&& final(self).runtime == if old(self).runtime == RuntimeState::NotStarted {
                    RuntimeState::Started
                } else {
                    old(self).runtime
                }
            },
    {
        if self.phase != Phase::Uninitialized {
            return Err(SchedulerError::AlreadyInitialized);
        }
        self.phase = Phase::Running;
        let start_runtime = self.runtime == RuntimeState::NotStarted;
        if start_runtime {
            self.runtime = RuntimeState::Started;
        }
        Ok(InitActions { start_runtime })
    }

    /// Begins shutdown: from here on no new work is admitted. Calling it when
    /// nothing runs is a no-op that asks for nothing.
    pub fn shutdown(&mut self) -> (r: ShutdownActions)
        ensures
            r.stop_runtime == (old(self).runtime == RuntimeState::Started),
            r.drop_dispatcher == (old(self).phase == Phase::Running),
            *final(self) == shutdown_state(*old(self)),
    {
        let stop_runtime = self.runtime == RuntimeState::Started;
        if stop_runtime {
            self.runtime = RuntimeState::Stopped;
        }
        let drop_dispatcher = self.phase == Phase::Running;
        if drop_dispatcher {
            self.phase = Phase::ShuttingDown;
        }
        ShutdownActions { stop_runtime, drop_dispatcher }
    }

    /// Ends shutdown once the caller has torn down what `shutdown` asked for.
    pub fn finish_shutdown(&mut self)
        ensures
            final(self).runtime == old(self).runtime,
            final(self).phase == if old(self).phase == Phase::ShuttingDown {
                Phase::Uninitialized
            } else {
                old(self).phase
            },
    {
        if self.phase == Phase::ShuttingDown {
            self.phase = Phase::Uninitialized;
        }
    }

    /// One tick: the dispatcher's ready tasks are to be run until none is
    /// ready. Changes nothing, so any run of ticks leaves the schedulers as
    /// they were; a tick while the dispatcher is not running is a misuse,
    /// reported as such.
    pub fn step(&self) -> (r: Result<(), SchedulerError>)
        ensures
            r is Ok <==> self.phase == Phase::Running,
            r is Err ==> r == Err::<(), SchedulerError>(SchedulerError::DispatcherNotRunning),
    {
        self.admit_local()
    }

    fn admit_local(&self) -> (r: Result<(), SchedulerError>)
        ensures
            r is Ok <==> self.phase == Phase::Running,
            r is Err ==> r == Err::<(), SchedulerError>(SchedulerError::DispatcherNotRunning),
    {
        if self.phase == Phase::Running {
            Ok(())
        } else {
            Err(SchedulerError::DispatcherNotRunning)
        }
    }

    /// Admits a task that runs entirely on the main thread.
    pub fn spawn_local_on_main_thread(&self) -> (r: Result<(), SchedulerError>)
        ensures
            r is Ok <==> self.phase == Phase::Running,
            r is Err ==> r == Err::<(), SchedulerError>(SchedulerError::DispatcherNotRunning),
    {
        self.admit_local()
    }

    /// Admits a fire-and-forget task sent to the main thread through the
    /// handle.
    pub fn spawn_on_main_thread(&self) -> (r: Result<(), SchedulerError>)
        ensures
            r is Ok <==> self.phase == Phase::Running,
            r is Err ==> r == Err::<(), SchedulerError>(SchedulerError::DispatcherNotRunning),
    {
        self.admit_local()
    }

    /// Admits a task sent to the main thread whose result is awaited.
    pub fn run_on_main_thread(&self) -> (r: Result<(), SchedulerError>)
        ensures
            r is Ok <==> self.phase == Phase::Running,
            r is Err ==> r == Err::<(), SchedulerError>(SchedulerError::DispatcherNotRunning),
    {
        self.admit_local()
    }

    /// Admits a task on the background runtime.
    pub fn spawn(&self) -> (r: Result<(), SchedulerError>)
        ensures
            r is Ok <==> self.runtime == RuntimeState::Started,
            r is Err ==> r == Err::<(), SchedulerError>(SchedulerError::RuntimeNotRunning),
    {
        if self.runtime == RuntimeState::Started {
            Ok(())
        } else {
            Err(SchedulerError::RuntimeNotRunning)
        }
    }

    /// Admits a blocking operation on the background runtime's blocking pool.
    pub fn spawn_blocking(&self) -> (r: Result<(), SchedulerError>)
        ensures
            r is Ok <==> self.runtime == RuntimeState::Started,
            r is Err ==> r == Err::<(), SchedulerError>(SchedulerError::RuntimeNotRunning),
    {
        self.spawn()
    }
}

/// Shutting down twice in a row does no more than shutting down once: the
/// second call asks for nothing and leaves the state as it is.
pub proof fn shutdown_is_idempotent(m: AsyncManager)
    ensures
        ({
            let once = shutdown_state(m);
            &&& shutdown_state(once) == once
            &&& !shutdown_asks(once)
        }),
{
}

pub open spec fn shutdown_state(m: AsyncManager) -> AsyncManager {
    AsyncManager {
        phase: if m.phase == Phase::Running {
            Phase::ShuttingDown
        } else {
            m.phase
        },
        runtime: if m.runtime == RuntimeState::Started {
            RuntimeState::Stopped
        } else {
            m.runtime
        },
    }
}

pub open spec fn shutdown_asks(m: AsyncManager) -> bool {
    m.runtime == RuntimeState::Started || m.phase == Phase::Running
}

} // verus!
