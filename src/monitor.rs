use vstd::prelude::*;

verus! {

/// Success code of a platform initialisation that found it already done.
pub const COM_S_FALSE: i32 = 1;

/// Failure code of a platform initialisation done before with another threading
/// model; the platform stays usable.
pub const COM_RPC_E_CHANGED_MODE: u32 = 0x8001_0106;

/// Outcome of initialising the platform component layer on a thread.
#[derive(Debug, Clone, Copy, PartialEq, Eq, Structural)]
pub enum ComInit {
    /// Initialised by this call.
    Fresh,
    /// Already initialised, in a compatible way.
    AlreadyInitialized,
    /// Failed; the platform cannot be used from this thread.
    Incompatible,
}

pub open spec fn com_init_of(hresult: i32) -> ComInit {
    if hresult == COM_S_FALSE {
        ComInit::AlreadyInitialized
    } else if hresult >= 0 {
        ComInit::Fresh
    } else if hresult as u32 == COM_RPC_E_CHANGED_MODE {
        ComInit::AlreadyInitialized
    } else {
        ComInit::Incompatible
    }
}

/// Classifies the result code of a platform initialisation call: success codes and
/// the "changed mode" failure leave the platform usable; every other failure does not.
pub fn classify_com_init(hresult: i32) -> (r: ComInit)
    ensures
        r == com_init_of(hresult),
{
    if hresult == COM_S_FALSE {
        ComInit::AlreadyInitialized
    } else if hresult >= 0 {
        ComInit::Fresh
    } else if hresult as u32 == COM_RPC_E_CHANGED_MODE {
        ComInit::AlreadyInitialized
    } else {
        ComInit::Incompatible
    }
}

impl ComInit {
    /// The platform can be used after this outcome.
    pub fn is_usable(&self) -> (r: bool)
        ensures
            r == (*self != ComInit::Incompatible),
    {
        match self {
            ComInit::Incompatible => false,
            _ => true,
        }
    }
}

/// What `start` asks of the owner of the background worker.
#[derive(Debug, Clone, Copy, PartialEq, Eq, Structural)]
pub enum StartAction {
    /// Set the running flag and spawn the one capture worker.
    SpawnWorker,
    /// Monitoring already runs: do nothing.
    AlreadyRunning,
}

/// What `stop` asks of the owner of the background worker.
#[derive(Debug, Clone, Copy, PartialEq, Eq, Structural)]
pub enum StopAction {
    /// Clear the running flag and wait for the worker to exit.
    JoinWorker,
    /// Clear the running flag; there is no worker to wait for.
    NothingToJoin,
}

/// Start/stop bookkeeping of the audio monitor: the running flag shared with the
/// worker, and whether a worker handle is held.
#[derive(Debug, Clone, Copy, PartialEq, Eq, Structural)]
pub struct MonitorControl {
    pub running: bool,
    pub has_worker: bool,
}

pub open spec fn start_spec(c: MonitorControl) -> (MonitorControl, StartAction) {
    if c.running {
        (c, StartAction::AlreadyRunning)
    } else {
        (MonitorControl { running: true, has_worker: true }, StartAction::SpawnWorker)
    }
}

pub open spec fn stop_spec(c: MonitorControl) -> (MonitorControl, StopAction) {
    (
        MonitorControl { running: false, has_worker: false },
        if c.has_worker {
            StopAction::JoinWorker
        } else {
            StopAction::NothingToJoin
        },
    )
}

impl MonitorControl {
    /// Not monitoring, no worker.
    pub fn new() -> (r: MonitorControl)
        ensures
            !r.running,
            !r.has_worker,
    {
        MonitorControl { running: false, has_worker: false }
    }

    /// Starts monitoring unless it already runs; at most one worker is spawned.
    pub fn start(&mut self) -> (r: StartAction)
        ensures
            (*final(self), r) == start_spec(*old(self)),
    {
        if self.running {
            StartAction::AlreadyRunning
        } else {
            self.running = true;
            self.has_worker = true;
            StartAction::SpawnWorker
        }
    }

    /// Stops monitoring; the worker, if any, is to be joined before returning.
    pub fn stop(&mut self) -> (r: StopAction)
        ensures
            (*final(self), r) == stop_spec(*old(self)),
    {
        self.running = false;
        if self.has_worker {
            self.has_worker = false;
            StopAction::JoinWorker
        } else {
            StopAction::NothingToJoin
        }
    }
}

/// Starting twice in a row spawns no second worker: the second start changes
/// nothing and reports that monitoring already runs.
pub proof fn lemma_start_is_idempotent(c: MonitorControl)
    ensures
        start_spec(start_spec(c).0).1 == StartAction::AlreadyRunning,
        start_spec(start_spec(c).0).0 == start_spec(c).0,
{
}

/// Once started, monitoring stays running until it is stopped: `start`, in any
/// state, leaves the running flag set, and only `stop` clears it.
pub proof fn lemma_running_until_stopped(c: MonitorControl)
    ensures
        start_spec(c).0.running,
        !stop_spec(c).0.running,
{
}

/// Stopping before any start has nothing to wait for and leaves the monitor idle.
pub proof fn lemma_stop_before_start_is_noop()
    ensures
        stop_spec(MonitorControl { running: false, has_worker: false }).1 == StopAction::NothingToJoin,
        stop_spec(MonitorControl { running: false, has_worker: false }).0 == (MonitorControl {
            running: false,
            has_worker: false,
        }),
{
}

} // verus!
