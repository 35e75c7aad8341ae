//! Process supervisor: the registry of running services (id to OS pid) and
//! the decision machine behind starting one service.
//!
//! Starting a service interleaves decisions with operating-system work (a
//! port probe, a spawn, readiness polling, a kill).  The decisions live here,
//! in [`StartMachine`]: the unverified shell performs one piece of
//! operating-system work per phase and reports its outcome back, and the
//! machine says what happens next.  The registry itself is a plain verified
//! map; presence in it is the sole source of truth for "this service is
//! running".

use vstd::prelude::*;
use crate::table::{Entry, Table, table_map, distinct_keys};

verus! {

/// Why starting a service failed.
#[derive(Clone, Copy, Debug, PartialEq, Eq, Structural)]
pub enum StartError {
    /// The registry already holds the id.
    AlreadyRunning,
    /// The requested readiness port was accepting connections before the
    /// child was spawned.
    PortInUse,
    /// The operating system could not spawn the child.
    SpawnFailed,
    /// The child exited, with this exit code, before its readiness port
    /// opened.
    ProcessExitedEarly(i32),
    /// The readiness port never opened within the startup timeout.
    StartupTimeout,
}

/// Why stopping a service failed.
#[derive(Clone, Copy, Debug, PartialEq, Eq, Structural)]
pub enum StopError {
    /// The registry does not hold the id.
    NotRunning,
}

/// The registry of running services: one pid per service id.
pub struct ServiceState {
    pids: Table<u32>,
}

impl View for ServiceState {
    type V = Map<Seq<char>, u32>;

    closed spec fn view(&self) -> Map<Seq<char>, u32> {
        self.pids@
    }
}

impl ServiceState {
    /// The registry keys are pairwise distinct.
    pub closed spec fn wf(&self) -> bool {
        self.pids.wf()
    }

    /// An empty registry: no service is running.
    pub fn new() -> (s: ServiceState)
        ensures
            s.wf(),
            s@ == Map::<Seq<char>, u32>::empty(),
    {
        ServiceState { pids: Table::new() }
    }

    /// Whether a service with this id is registered as running.
    pub fn is_running(&self, id: &String) -> (b: bool)
        ensures
            b == self@.contains_key(id@),
    {
        self.pids.contains_key(id)
    }

    /// Record a freshly started service.
    pub fn register(&mut self, id: String, pid: u32)
        requires
            old(self).wf(),
        ensures
            final(self).wf(),
            final(self)@ == old(self)@.insert(id@, pid),
    {
        self.pids.insert(id, pid);
    }

    /// Pid of a registered service.
    pub fn pid_of(&self, id: &String) -> (r: Option<u32>)
        requires
            self.wf(),
        ensures
            self@.contains_key(id@) ==> r == Some(self@[id@]),
            !self@.contains_key(id@) ==> r == None::<u32>,
    {
        self.pids.get(id)
    }
}

/// Remove a service from the registry.  On success the caller is handed the
/// pid so it can terminate the process tree; the removal alone already makes
/// the service "not running".  An unregistered id fails with
/// [`StopError::NotRunning`] and leaves the registry — and hence the
/// operating-system process table — untouched.
pub fn stop_service(state: &mut ServiceState, id: &String) -> (r: Result<u32, StopError>)
    requires
        old(state).wf(),
    ensures
        final(state).wf(),
        old(state)@.contains_key(id@) ==> r == Ok::<u32, StopError>(old(state)@[id@])
            && final(state)@ == old(state)@.remove(id@),
        !old(state)@.contains_key(id@) ==> r == Err::<u32, StopError>(StopError::NotRunning)
            && final(state)@ == old(state)@,
{
    match state.pids.remove(id) {
        Some(pid) => Ok(pid),
        None => Err(StopError::NotRunning),
    }
}

/// Empty the registry, handing out every record so the caller can terminate
/// each remaining process tree at application exit.
pub fn shutdown_all(state: &mut ServiceState) -> (out: Vec<Entry<u32>>)
    requires
        old(state).wf(),
    ensures
        final(state).wf(),
        final(state)@ == Map::<Seq<char>, u32>::empty(),
        distinct_keys(out@),
        table_map(out@) == old(state)@,
{
    state.pids.drain()
}

/// Largest accepted startup timeout and poll interval, in milliseconds.
/// Keeping both far below the integer limit lets the machine add them
/// without overflow.
pub const MAX_START_MS: u64 = 0x1000_0000_0000_0000;

/// Where a start attempt stands.
#[derive(Clone, Copy, Debug, PartialEq, Eq, Structural)]
pub enum StartPhase {
    /// Probe the readiness port once; an unrelated listener means the port
    /// is taken.
    ProbePort { probe_port: u16 },
    /// Spawn the child process.
    SpawnChild,
    /// Poll: has the child exited, and is the readiness port open?
    AwaitReady { pid: u32, await_port: u16, waited_ms: u64 },
    /// The service is ready; register it.
    Ready { pid: u32 },
    /// The attempt is over and failed.
    Failed { error: StartError },
}

/// The decision machine of one start attempt.
///
/// The shell drives it: `begin` looks at the registry, then each phase names
/// one piece of operating-system work whose outcome is fed back through the
/// matching `on_*` method, until the phase is `Ready` or `Failed` and
/// `finish` settles the registry and the result.
pub struct StartMachine {
    /// Port whose readiness signals that the service is up, if any.
    pub ready_port: Option<u16>,
    /// Overall startup timeout, in milliseconds.
    pub timeout_ms: u64,
    /// Pause between readiness polls, in milliseconds.
    pub interval_ms: u64,
    /// Current phase.
    pub phase: StartPhase,
}

impl StartMachine {
    /// Configuration bounds plus the phase/configuration agreement.
    pub open spec fn wf(&self) -> bool {
        &&& 1 <= self.interval_ms <= MAX_START_MS
        &&& self.timeout_ms <= MAX_START_MS
        &&& self.phase matches StartPhase::ProbePort { probe_port } ==> self.ready_port == Some(
            probe_port,
        )
        &&& self.phase matches StartPhase::AwaitReady { await_port, waited_ms, .. } ==> {
            &&& self.ready_port == Some(await_port)
            &&& waited_ms <= self.timeout_ms + self.interval_ms
        }
    }

    /// Open a start attempt for `id`.  A registered id fails at once with
    /// [`StartError::AlreadyRunning`]; otherwise the attempt begins with the
    /// port probe when a readiness port was given, else with the spawn.
    pub fn begin(
        registry: &ServiceState,
        id: &String,
        ready_port: Option<u16>,
        timeout_ms: u64,
        interval_ms: u64,
    ) -> (m: StartMachine)
        requires
            1 <= interval_ms <= MAX_START_MS,
            timeout_ms <= MAX_START_MS,
        ensures
            m.wf(),
            m == spec_begin(*registry, *id, ready_port, timeout_ms, interval_ms),
            registry@.contains_key(id@) ==> m.phase == (StartPhase::Failed {
                error: StartError::AlreadyRunning,
            }),
            !registry@.contains_key(id@) ==> m.phase == match ready_port {
                Some(p) => StartPhase::ProbePort { probe_port: p },
                None => StartPhase::SpawnChild,
            },
    {
        let phase = if registry.is_running(id) {
            StartPhase::Failed { error: StartError::AlreadyRunning }
        } else {
            match ready_port {
                Some(p) => StartPhase::ProbePort { probe_port: p },
                None => StartPhase::SpawnChild,
            }
        };
        StartMachine { ready_port, timeout_ms, interval_ms, phase }
    }

    /// Outcome of the single pre-spawn probe of the readiness port.  An open
    /// port belongs to an unrelated listener, so the attempt fails with
    /// [`StartError::PortInUse`] before any process is spawned.
    pub fn on_port_probe(&mut self, port_open: bool)
        requires
            old(self).wf(),
            old(self).phase is ProbePort,
        ensures
            final(self).wf(),
            *final(self) == spec_on_port_probe(*old(self), port_open),
            port_open ==> final(self).phase == (StartPhase::Failed {
                error: StartError::PortInUse,
            }),
            !port_open ==> final(self).phase == StartPhase::SpawnChild,
    {
        if port_open {
            self.phase = StartPhase::Failed { error: StartError::PortInUse };
        } else {
            self.phase = StartPhase::SpawnChild;
        }
    }

    /// Outcome of the spawn: the new pid, or nothing when the operating
    /// system refused.  Without a readiness port the service counts as
    /// started right away; with one, the readiness wait begins.
    pub fn on_spawned(&mut self, spawned: Option<u32>)
        requires
            old(self).wf(),
            old(self).phase is SpawnChild,
        ensures
            final(self).wf(),
            final(self).ready_port == old(self).ready_port,
            final(self).timeout_ms == old(self).timeout_ms,
            final(self).interval_ms == old(self).interval_ms,
            spawned is None ==> final(self).phase == (StartPhase::Failed {
                error: StartError::SpawnFailed,
            }),
            spawned matches Some(pid) ==> final(self).phase == match old(self).ready_port {
                Some(p) => StartPhase::AwaitReady { pid, await_port: p, waited_ms: 0 },
                None => StartPhase::Ready { pid },
            },
    {
        match spawned {
            None => {
                self.phase = StartPhase::Failed { error: StartError::SpawnFailed };
            },
            Some(pid) => {
                match self.ready_port {
                    Some(p) => {
                        self.phase = StartPhase::AwaitReady {
                            pid,
                            await_port: p,
                            waited_ms: 0,
                        };
                    },
                    None => {
                        self.phase = StartPhase::Ready { pid };
                    },
                }
            },
        }
    }

    /// One round of the readiness poll: `child_exit` is the child's exit
    /// code when it has already terminated, `port_open` the probe of the
    /// readiness port.  A child that exited before the port opened fails the
    /// attempt with its exit code; an open port makes the service ready; a
    /// spent timeout fails the attempt and asks the caller — through the
    /// returned flag — to kill the child; otherwise the caller sleeps one
    /// interval and polls again.
    pub fn on_poll(&mut self, child_exit: Option<i32>, port_open: bool) -> (kill_child: bool)
        requires
            old(self).wf(),
            old(self).phase is AwaitReady,
        ensures
            final(self).wf(),
            *final(self) == spec_on_poll(*old(self), child_exit, port_open).0,
            kill_child == spec_on_poll(*old(self), child_exit, port_open).1,
            child_exit matches Some(code) ==> final(self).phase == (StartPhase::Failed {
                error: StartError::ProcessExitedEarly(code),
            }) && !kill_child,
            child_exit is None && port_open ==> final(self).phase == (StartPhase::Ready {
                pid: old(self).phase->AwaitReady_pid,
            }) && !kill_child,
            child_exit is None && !port_open && old(self).phase->AwaitReady_waited_ms
                >= old(self).timeout_ms ==> final(self).phase == (StartPhase::Failed {
                error: StartError::StartupTimeout,
            }) && kill_child,
            child_exit is None && !port_open && old(self).phase->AwaitReady_waited_ms
                < old(self).timeout_ms ==> final(self).phase == (StartPhase::AwaitReady {
                pid: old(self).phase->AwaitReady_pid,
                await_port: old(self).phase->AwaitReady_await_port,
                waited_ms: (old(self).phase->AwaitReady_waited_ms + old(self).interval_ms) as u64,
            }) && !kill_child,
    {
        match self.phase {
            StartPhase::AwaitReady { pid, await_port, waited_ms } => {
                match child_exit {
                    Some(code) => {
                        self.phase = StartPhase::Failed {
                            error: StartError::ProcessExitedEarly(code),
                        };
                        false
                    },
                    None => {
                        if port_open {
                            self.phase = StartPhase::Ready { pid };
                            false
                        } else if waited_ms >= self.timeout_ms {
                            self.phase = StartPhase::Failed { error: StartError::StartupTimeout };
                            true
                        } else {
                            self.phase = StartPhase::AwaitReady {
                                pid,
                                await_port,
                                waited_ms: waited_ms + self.interval_ms,
                            };
                            false
                        }
                    },
                }
            },
            _ => false,
        }
    }

    /// Close the attempt: a ready service is registered and its pid
    /// returned; a failed attempt returns its error and leaves the registry
    /// exactly as it was.
    pub fn finish(self, registry: &mut ServiceState, id: String) -> (r: Result<u32, StartError>)
        requires
            old(registry).wf(),
            self.wf(),
            self.phase is Ready || self.phase is Failed,
        ensures
            final(registry).wf(),
            final(registry)@ == spec_finish_map(self, old(registry)@, id@),
            self.phase matches StartPhase::Ready { pid } ==> r == Ok::<u32, StartError>(pid)
                && final(registry)@ == old(registry)@.insert(id@, pid),
            self.phase matches StartPhase::Failed { error } ==> r == Err::<u32, StartError>(error)
                && final(registry)@ == old(registry)@,
    {
        match self.phase {
            StartPhase::Ready { pid } => {
                registry.register(id, pid);
                Ok(pid)
            },
            StartPhase::Failed { error } => Err(error),
            _ => Err(StartError::SpawnFailed),
        }
    }
}

/// What [`StartMachine::on_port_probe`] leaves behind, as a spec value.
pub open spec fn spec_on_port_probe(m: StartMachine, port_open: bool) -> StartMachine {
    StartMachine {
        ready_port: m.ready_port,
        timeout_ms: m.timeout_ms,
        interval_ms: m.interval_ms,
        phase: if port_open {
            StartPhase::Failed { error: StartError::PortInUse }
        } else {
            StartPhase::SpawnChild
        },
    }
}

/// What [`StartMachine::on_poll`] leaves behind and whether it asks for a
/// kill, as spec values.  Meaningful only from the polling phase; any other
/// phase is left as it is.
pub open spec fn spec_on_poll(m: StartMachine, child_exit: Option<i32>, port_open: bool) -> (
    StartMachine,
    bool,
) {
    match m.phase {
        StartPhase::AwaitReady { pid, await_port, waited_ms } => {
            let (phase, kill) = match child_exit {
                Some(code) => (
                    StartPhase::Failed { error: StartError::ProcessExitedEarly(code) },
                    false,
                ),
                None => if port_open {
                    (StartPhase::Ready { pid }, false)
                } else if waited_ms >= m.timeout_ms {
                    (StartPhase::Failed { error: StartError::StartupTimeout }, true)
                } else {
                    (
                        StartPhase::AwaitReady {
                            pid,
                            await_port,
                            waited_ms: (waited_ms + m.interval_ms) as u64,
                        },
                        false,
                    )
                },
            };
            (
                StartMachine {
                    ready_port: m.ready_port,
                    timeout_ms: m.timeout_ms,
                    interval_ms: m.interval_ms,
                    phase,
                },
                kill,
            )
        },
        _ => (m, false),
    }
}

/// The registry [`StartMachine::finish`] leaves behind: only a ready
/// attempt registers anything.
pub open spec fn spec_finish_map(
    m: StartMachine,
    registry: Map<Seq<char>, u32>,
    id: Seq<char>,
) -> Map<Seq<char>, u32> {
    match m.phase {
        StartPhase::Ready { pid } => registry.insert(id, pid),
        _ => registry,
    }
}

/// What [`StartMachine::begin`] returns, as a spec value, so that laws can
/// speak about a whole start attempt.
pub open spec fn spec_begin(
    registry: ServiceState,
    id: String,
    ready_port: Option<u16>,
    timeout_ms: u64,
    interval_ms: u64,
) -> StartMachine {
    StartMachine {
        ready_port,
        timeout_ms,
        interval_ms,
        phase: if registry@.contains_key(id@) {
            StartPhase::Failed { error: StartError::AlreadyRunning }
        } else {
            match ready_port {
                Some(p) => StartPhase::ProbePort { probe_port: p },
                None => StartPhase::SpawnChild,
            }
        },
    }
}

/// Starting a service twice with the same id, without stopping it in
/// between, fails: once a start of `id` has succeeded the registry holds
/// `id`, so a second attempt opens in the `Failed` phase with
/// `AlreadyRunning` — never in the probing or spawning phase, so no second
/// process is spawned — and closing that attempt leaves the registry exactly
/// as it was.
pub proof fn lemma_start_twice_fails(
    registry: ServiceState,
    id: String,
    pid: u32,
    registry_after: ServiceState,
    ready_port: Option<u16>,
    timeout_ms: u64,
    interval_ms: u64,
)
    requires
        registry_after@ == registry@.insert(id@, pid),
    ensures
        spec_begin(registry_after, id, ready_port, timeout_ms, interval_ms).phase == (
        StartPhase::Failed { error: StartError::AlreadyRunning }),
        spec_begin(registry_after, id, ready_port, timeout_ms, interval_ms).phase !is SpawnChild,
        spec_begin(registry_after, id, ready_port, timeout_ms, interval_ms).phase !is ProbePort,
{
}

/// A readiness port that an unrelated listener already occupies fails the
/// start with `PortInUse`: the attempt opens in the probing phase — never
/// having passed through the spawning phase — the occupied probe moves it
/// straight to `Failed`, and closing the attempt registers nothing.
pub proof fn lemma_occupied_port_rejects_start(
    registry: ServiceState,
    id: String,
    port: u16,
    timeout_ms: u64,
    interval_ms: u64,
    others: Map<Seq<char>, u32>,
)
    requires
        !registry@.contains_key(id@),
    ensures
        ({
            let opened = spec_begin(registry, id, Some(port), timeout_ms, interval_ms);
            let probed = spec_on_port_probe(opened, true);
            &&& opened.phase == (StartPhase::ProbePort { probe_port: port })
            &&& opened.phase !is SpawnChild
            &&& probed.phase == (StartPhase::Failed { error: StartError::PortInUse })
            &&& probed.phase !is SpawnChild
            &&& spec_finish_map(probed, others, id@) == others
        }),
{
}

/// A child that exits before its readiness port opens fails the start with
/// `ProcessExitedEarly` and its exit code: the poll moves the attempt to
/// `Failed` without asking for a kill (the child is already gone), and
/// closing the attempt leaves the registry without an entry for the id.
pub proof fn lemma_early_exit_fails_start(
    m: StartMachine,
    code: i32,
    others: Map<Seq<char>, u32>,
    id: Seq<char>,
)
    requires
        m.phase is AwaitReady,
    ensures
        ({
            let (polled, kill) = spec_on_poll(m, Some(code), false);
            &&& polled.phase == (StartPhase::Failed { error: StartError::ProcessExitedEarly(code) })
            &&& !kill
            &&& spec_finish_map(polled, others, id) == others
        }),
{
}

} // verus!
