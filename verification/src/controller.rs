//! The worker controller's lifecycle state machine.
//!
//! The controller owns at most one background run of the watcher. The thread
//! itself, the cancellation flag and the join live with the caller; this
//! state machine decides which commands are valid in which phase, so that the
//! one-run-at-a-time rule is enforced by construction rather than by
//! convention.

use vstd::prelude::*;

verus! {

/// The lifecycle phase of the one run a controller may own.
#[derive(Clone, Copy, PartialEq, Eq, Structural, Debug)]
pub enum ControllerPhase {
    /// No run is active.
    Idle,
    /// One run owns a background execution of the watcher.
    Running,
    /// Cancellation was requested; the worker's voluntary exit is awaited.
    Stopping,
}

/// Why a controller command was rejected.
#[derive(Clone, Copy, PartialEq, Eq, Structural, Debug)]
pub enum ControllerError {
    /// `start` arrived while a run was already active.
    AlreadyRunning,
    /// `request_stop` arrived with no run to stop.
    NotRunning,
}

/// Tracks the lifecycle of the single permitted background run.
pub struct WorkerController {
    /// The current lifecycle phase.
    pub phase: ControllerPhase,
}

/// What `start` does: from `Idle` the controller moves to `Running`; in any
/// other phase the command is rejected and nothing changes.
pub open spec fn spec_start(c: WorkerController) -> (WorkerController, Result<
    (),
    ControllerError,
>) {
    if c.phase == ControllerPhase::Idle {
        (WorkerController { phase: ControllerPhase::Running }, Ok(()))
    } else {
        (c, Err(ControllerError::AlreadyRunning))
    }
}

/// What `request_stop` does: from `Running` the controller moves to
/// `Stopping`; in any other phase the command is rejected and nothing
/// changes.
pub open spec fn spec_request_stop(c: WorkerController) -> (WorkerController, Result<
    (),
    ControllerError,
>) {
    if c.phase == ControllerPhase::Running {
        (WorkerController { phase: ControllerPhase::Stopping }, Ok(()))
    } else {
        (c, Err(ControllerError::NotRunning))
    }
}

impl WorkerController {
    /// A fresh controller, with no run active.
    pub fn new() -> (c: WorkerController)
        ensures
            c.phase == ControllerPhase::Idle,
    {
        WorkerController { phase: ControllerPhase::Idle }
    }

    /// Accepts a `start` command. Only valid from `Idle`: the caller may
    /// spawn the worker exactly when `Ok` comes back.
    pub fn start(&mut self) -> (r: Result<(), ControllerError>)
        ensures
            (*final(self), r) == spec_start(*old(self)),
    {
        if self.phase == ControllerPhase::Idle {
            self.phase = ControllerPhase::Running;
            Ok(())
        } else {
            Err(ControllerError::AlreadyRunning)
        }
    }

    /// Accepts a `stop` command. Only valid from `Running`: the caller must
    /// then set the cancellation flag and block until the worker joins.
    pub fn request_stop(&mut self) -> (r: Result<(), ControllerError>)
        ensures
            (*final(self), r) == spec_request_stop(*old(self)),
    {
        if self.phase == ControllerPhase::Running {
            self.phase = ControllerPhase::Stopping;
            Ok(())
        } else {
            Err(ControllerError::NotRunning)
        }
    }

    /// Records that the worker has exited — after a requested stop has
    /// joined, or because the run ended on its own (a fatal I/O failure ends
    /// a run and reverts the controller to idle).
    pub fn on_worker_exit(&mut self)
        requires
            old(self).phase != ControllerPhase::Idle,
        ensures
            final(self).phase == ControllerPhase::Idle,
    {
        self.phase = ControllerPhase::Idle;
    }

    /// A run may be started right now.
    pub fn can_start(&self) -> (r: bool)
        ensures
            r == (self.phase == ControllerPhase::Idle),
    {
        self.phase == ControllerPhase::Idle
    }
}

/// The main button's label while it is ready to be activated: one of two
/// texts, depending on whether a simulation or a live run is selected.
pub fn get_activate_button_label(simulating: bool) -> (r: String)
    ensures
        simulating ==> r@ == "Simulate a match"@,
        !simulating ==> r@ == "Activate program"@,
{
    if simulating {
        "Simulate a match".to_owned()
    } else {
        "Activate program".to_owned()
    }
}

/// No two runs are ever concurrently active: while a run is anything but
/// idle, `start` is rejected and the controller is left exactly as it was.
pub proof fn lemma_start_rejected_unless_idle(c: WorkerController)
    requires
        c.phase != ControllerPhase::Idle,
    ensures
        spec_start(c).0 == c,
        spec_start(c).1 == Err::<(), ControllerError>(ControllerError::AlreadyRunning),
{
}

/// Only an active run can be asked to stop, and a stop request never starts
/// anything: the controller either moves `Running` to `Stopping` or stays as
/// it was.
pub proof fn lemma_stop_only_from_running(c: WorkerController)
    ensures
        c.phase == ControllerPhase::Running ==> spec_request_stop(c).0.phase
            == ControllerPhase::Stopping && spec_request_stop(c).1 == Ok::<(), ControllerError>(()),
        c.phase != ControllerPhase::Running ==> spec_request_stop(c).0 == c && spec_request_stop(
            c,
        ).1 == Err::<(), ControllerError>(ControllerError::NotRunning),
{
}

} // verus!
